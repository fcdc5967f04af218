//! The chunked uploader and an in-memory model of a conformant target
//! store.
//!
//! The uploader streams a payload in bounded-size chunks — a client-side
//! pacing choice that caps peak memory — and never reports success unless
//! the target confirmed the whole body with a 2xx status. The store model
//! enforces the target's visible contract: a request past its expiry
//! instant is rejected, a key marked for fault injection is rejected, and
//! an accepted upload stores exactly the concatenation of the chunks,
//! whatever chunk size the client chose.
use vstd::prelude::*;
use vstd::string::StringSliceAdditionalSpecFns;

use crate::bytes::{append_bytes, append_str, bytes_eq};
use crate::sign::SignedRequest;

verus! {

/// Longest diagnostic body prefix kept in an outcome.
pub const RESPONSE_PREFIX_MAX: usize = 64;

/// How one upload attempt ended.
#[derive(Clone, Debug)]
pub enum UploadStatus {
    /// The remote confirmed the whole body with this 2xx status.
    Accepted(u16),
    /// The remote rejected the request: status code and a bounded prefix
    /// of the diagnostic response body.
    Rejected(u16, Vec<u8>),
    /// The transfer failed below HTTP (reset, timeout): nothing was
    /// confirmed. Never a success.
    Transport,
}

/// Per-batch record of one upload attempt.
#[derive(Clone, Debug)]
pub struct UploadOutcome {
    /// Size of the payload the attempt set out to send.
    pub bytes_attempted: usize,
    /// Bytes the target acknowledged having received.
    pub bytes_sent: usize,
    /// Resulting status or transport failure.
    pub status: UploadStatus,
}

impl UploadOutcome {
    /// An outcome counts as success exactly when the remote confirmed a
    /// 2xx status.
    pub open spec fn spec_success(&self) -> bool {
        match self.status {
            UploadStatus::Accepted(code) => 200 <= code < 300,
            UploadStatus::Rejected(_, _) => false,
            UploadStatus::Transport => false,
        }
    }

    /// Checks [`Self::spec_success`].
    pub fn is_success(&self) -> (r: bool)
        ensures
            r == self.spec_success(),
    {
        match &self.status {
            UploadStatus::Accepted(code) => 200 <= *code && *code < 300,
            UploadStatus::Rejected(_, _) => false,
            UploadStatus::Transport => false,
        }
    }
}

/// One object held by the store model.
#[derive(Clone, Debug)]
pub struct StoredObject {
    pub key: Vec<u8>,
    pub data: Vec<u8>,
}

/// Whether a key occurs in a list of keys.
pub open spec fn contains_key(ks: Seq<Vec<u8>>, k: Seq<u8>) -> bool {
    exists|i: int| 0 <= i < ks.len() && #[trigger] ks[i]@ == k
}

/// Diagnostic body a conformant target returns for a request past its
/// expiry instant.
pub open spec fn spec_expired_body() -> Seq<u8> {
    "Request has expired".spec_bytes()
}

/// Diagnostic body a conformant target returns when it denies a write.
pub open spec fn spec_denied_body() -> Seq<u8> {
    "Access Denied".spec_bytes()
}

/// An in-memory conformant target: it checks the expiry instant of every
/// request, rejects keys marked for fault injection, and otherwise stores
/// exactly the bytes received. One transfer may be open at a time.
pub struct MemoryObjectStore {
    /// Objects accepted so far, in arrival order.
    pub objects: Vec<StoredObject>,
    /// Keys this store is rigged to reject with status 403.
    pub reject_keys: Vec<Vec<u8>>,
    /// Whether a transfer is open.
    pub pending_active: bool,
    /// Key of the open transfer.
    pub pending_key: Vec<u8>,
    /// Bytes received so far on the open transfer.
    pub pending_data: Vec<u8>,
}

/// Whether a conformant target accepts this request at instant `now`.
pub open spec fn spec_put_accepts(store: MemoryObjectStore, req: SignedRequest, now: int) -> bool {
    now <= req.expires_at && !contains_key(store.reject_keys@, req.key@)
}

impl MemoryObjectStore {
    /// An empty store with no rigged rejections.
    pub fn new() -> (s: Self)
        ensures
            s.objects@.len() == 0,
            s.reject_keys@.len() == 0,
            !s.pending_active,
    {
        MemoryObjectStore {
            objects: Vec::new(),
            reject_keys: Vec::new(),
            pending_active: false,
            pending_key: Vec::new(),
            pending_data: Vec::new(),
        }
    }

    /// Rigs the store to reject every write to `key` with status 403.
    pub fn force_reject(&mut self, key: Vec<u8>)
        ensures
            final(self).reject_keys@ == old(self).reject_keys@.push(key),
            final(self).objects == old(self).objects,
            final(self).pending_active == old(self).pending_active,
            final(self).pending_key == old(self).pending_key,
            final(self).pending_data == old(self).pending_data,
    {
        self.reject_keys.push(key);
    }

    /// Opens a transfer: the target's checks happen here, before any
    /// body byte moves. Returns the rejection status and diagnostic body
    /// for an expired request (403) or a rigged key (403).
    pub fn begin_put(&mut self, req: &SignedRequest, now: i64) -> (r: Result<(), (u16, Vec<u8>)>)
        requires
            !old(self).pending_active,
        ensures
            final(self).objects == old(self).objects,
            final(self).reject_keys == old(self).reject_keys,
            spec_put_accepts(*old(self), *req, now as int) ==> (r is Ok
                && final(self).pending_active && final(self).pending_key@ == req.key@ && final(self).pending_data@.len() == 0),
            now > req.expires_at ==> (r matches Err(e) && e.0 == 403 && e.1@
                == spec_expired_body() && !final(self).pending_active),
            (now <= req.expires_at && contains_key(old(self).reject_keys@, req.key@)) ==> (
            r matches Err(e) && e.0 == 403 && e.1@ == spec_denied_body() && !final(self).pending_active),
    {
        if now > req.expires_at {
            let mut body: Vec<u8> = Vec::new();
            append_str(&mut body, "Request has expired");
            proof {
                assert(body@ =~= spec_expired_body());
            }
            return Err((403u16, body));
        }
        let mut i: usize = 0;
        while i < self.reject_keys.len()
            invariant
                i <= old(self).reject_keys@.len(),
                *self == *old(self),
                !old(self).pending_active,
                now <= req.expires_at,
                forall|k: int| 0 <= k < i ==> old(self).reject_keys@[k]@ != req.key@,
            decreases old(self).reject_keys@.len() - i,
        {
            if bytes_eq(&self.reject_keys[i], &req.key) {
                let mut body: Vec<u8> = Vec::new();
                append_str(&mut body, "Access Denied");
                proof {
                    assert(body@ =~= spec_denied_body());
                }
                return Err((403u16, body));
            }
            i = i + 1;
        }
        let mut k: Vec<u8> = Vec::new();
        append_bytes(&mut k, &req.key);
        proof {
            assert(k@ =~= req.key@);
        }
        self.pending_key = k;
        self.pending_data = Vec::new();
        self.pending_active = true;
        Ok(())
    }

    /// Receives one chunk of the open transfer.
    pub fn put_chunk(&mut self, chunk: &Vec<u8>)
        requires
            old(self).pending_active,
        ensures
            final(self).pending_data@ == old(self).pending_data@ + chunk@,
            final(self).pending_active,
            final(self).pending_key == old(self).pending_key,
            final(self).objects == old(self).objects,
            final(self).reject_keys == old(self).reject_keys,
    {
        let mut data = Vec::new();
        std::mem::swap(&mut data, &mut self.pending_data);
        append_bytes(&mut data, chunk);
        std::mem::swap(&mut data, &mut self.pending_data);
        proof {
            assert(final(self).pending_data@ =~= old(self).pending_data@ + chunk@);
        }
    }

    /// Closes the open transfer: commits the received bytes under the
    /// transfer's key and confirms with status 200.
    pub fn finish_put(&mut self) -> (code: u16)
        requires
            old(self).pending_active,
        ensures
            code == 200,
            !final(self).pending_active,
            final(self).reject_keys == old(self).reject_keys,
            final(self).objects@.len() == old(self).objects@.len() + 1,
            forall|k: int|
                0 <= k < old(self).objects@.len() ==> final(self).objects@[k] == old(self).objects@[k],
            final(self).objects@.last().key@ == old(self).pending_key@,
            final(self).objects@.last().data@ == old(self).pending_data@,
    {
        let mut key: Vec<u8> = Vec::new();
        let mut data: Vec<u8> = Vec::new();
        std::mem::swap(&mut key, &mut self.pending_key);
        std::mem::swap(&mut data, &mut self.pending_data);
        self.pending_active = false;
        self.objects.push(StoredObject { key, data });
        200u16
    }
}

/// A diagnostic body truncated to the bounded prefix kept in outcomes.
pub open spec fn spec_bounded(b: Seq<u8>) -> Seq<u8> {
    if b.len() <= RESPONSE_PREFIX_MAX {
        b
    } else {
        b.subrange(0, RESPONSE_PREFIX_MAX as int)
    }
}

/// Truncates a diagnostic body to the bounded prefix kept in outcomes.
fn bound_body(body: Vec<u8>) -> (r: Vec<u8>)
    ensures
        body@.len() <= RESPONSE_PREFIX_MAX ==> r@ == body@,
        body@.len() > RESPONSE_PREFIX_MAX ==> r@ == body@.subrange(0, RESPONSE_PREFIX_MAX as int),
{
    let mut b = body;
    if b.len() > RESPONSE_PREFIX_MAX {
        b.truncate(RESPONSE_PREFIX_MAX);
    }
    b
}

/// Streams `payload` to the store under a signed request, in chunks of at
/// most `chunk_size` bytes. Success is reported only when the target
/// confirmed the whole body with a 2xx status; the bytes stored are then
/// exactly `payload`, whatever `chunk_size` was. A rejected request
/// leaves the store unchanged.
pub fn upload(
    store: &mut MemoryObjectStore,
    req: &SignedRequest,
    payload: &Vec<u8>,
    chunk_size: usize,
    now: i64,
) -> (o: UploadOutcome)
    requires
        chunk_size >= 1,
        !old(store).pending_active,
    ensures
        o.bytes_attempted == payload@.len(),
        final(store).reject_keys == old(store).reject_keys,
        !final(store).pending_active,
        spec_put_accepts(*old(store), *req, now as int) ==> (o.status matches UploadStatus::Accepted(code)
            && code == 200 && o.spec_success() && o.bytes_sent == payload@.len() && final(store).objects@.len() == old(store).objects@.len() + 1 && final(store).objects@.last().key@
            == req.key@ && final(store).objects@.last().data@ == payload@ && forall|k: int|
            0 <= k < old(store).objects@.len() ==> final(store).objects@[k] == old(store).objects@[k]),
        now > req.expires_at ==> (o.status matches UploadStatus::Rejected(code, body) && code
            == 403 && body@ == spec_bounded(spec_expired_body()) && o.bytes_sent == 0 && final(store).objects == old(store).objects),
        (now <= req.expires_at && contains_key(old(store).reject_keys@, req.key@)) ==> (o.status matches UploadStatus::Rejected(code, body)
            && code == 403 && body@ == spec_bounded(spec_denied_body()) && o.bytes_sent == 0
            && final(store).objects == old(store).objects),
        !spec_put_accepts(*old(store), *req, now as int) ==> !o.spec_success(),
{
    let attempted = payload.len();
    match store.begin_put(req, now) {
        Err((code, body)) => {
            let bounded = bound_body(body);
            return UploadOutcome {
                bytes_attempted: attempted,
                bytes_sent: 0,
                status: UploadStatus::Rejected(code, bounded),
            };
        },
        Ok(()) => {},
    }
    let mut off: usize = 0;
    while off < payload.len()
        invariant
            off <= payload@.len(),
            payload@.len() <= usize::MAX,
            chunk_size >= 1,
            store.pending_active,
            store.pending_key@ == req.key@,
            store.pending_data@ == payload@.subrange(0, off as int),
            store.objects == old(store).objects,
            store.reject_keys == old(store).reject_keys,
        decreases payload@.len() - off,
    {
        let remaining = payload.len() - off;
        let step = if remaining < chunk_size {
            remaining
        } else {
            chunk_size
        };
        let mut chunk: Vec<u8> = Vec::new();
        let mut t: usize = 0;
        while t < step
            invariant
                t <= step,
                off + step <= payload@.len(),
                payload@.len() <= usize::MAX,
                chunk@ == payload@.subrange(off as int, off + t),
            decreases step - t,
        {
            chunk.push(payload[off + t]);
            proof {
                assert(chunk@ =~= payload@.subrange(off as int, off + t + 1));
            }
            t = t + 1;
        }
        store.put_chunk(&chunk);
        proof {
            assert(store.pending_data@ =~= payload@.subrange(0, off + step));
        }
        off = off + step;
    }
    proof {
        assert(store.pending_data@ =~= payload@);
    }
    let code = store.finish_put();
    UploadOutcome {
        bytes_attempted: attempted,
        bytes_sent: attempted,
        status: UploadStatus::Accepted(code),
    }
}

/// The chunk decomposition the uploader walks: `p` split into pieces of
/// `c` bytes, the last piece shorter when `c` does not divide `p`.
pub open spec fn spec_chunks(p: Seq<u8>, c: int) -> Seq<Seq<u8>>
    recommends
        c >= 1,
    decreases p.len(),
    when c >= 1
{
    if p.len() == 0 {
        Seq::empty()
    } else if p.len() <= c {
        seq![p]
    } else {
        seq![p.subrange(0, c)] + spec_chunks(p.subrange(c, p.len() as int), c)
    }
}

/// Chunk-size invariance: whatever chunk size the client picks, the
/// concatenation of the chunks is the payload itself, so the target
/// receives byte-identical data under any two chunk sizes.
pub proof fn lemma_chunks_flatten(p: Seq<u8>, c: int)
    requires
        c >= 1,
    ensures
        spec_chunks(p, c).flatten() == p,
    decreases p.len(),
{
    if p.len() == 0 {
        assert(spec_chunks(p, c).flatten() =~= p);
    } else if p.len() <= c {
        let s = spec_chunks(p, c);
        assert(s == seq![p]);
        assert(s.first() == p);
        assert(s.drop_first() =~= Seq::<Seq<u8>>::empty());
        assert(s.drop_first().flatten() =~= Seq::<u8>::empty());
        assert(s.flatten() =~= p);
    } else {
        let head = p.subrange(0, c);
        let tail = p.subrange(c, p.len() as int);
        lemma_chunks_flatten(tail, c);
        let s = seq![head] + spec_chunks(tail, c);
        assert(s.first() == head);
        assert(s.drop_first() =~= spec_chunks(tail, c));
        assert(s.flatten() == head + spec_chunks(tail, c).flatten());
        assert(spec_chunks(p, c).flatten() =~= p);
    }
}

/// Chunk-size invariance across two sizes: the flattened transfers are
/// byte-identical for any two chunk sizes.
pub proof fn lemma_chunk_size_invariance(p: Seq<u8>, c1: int, c2: int)
    requires
        c1 >= 1,
        c2 >= 1,
    ensures
        spec_chunks(p, c1).flatten() == spec_chunks(p, c2).flatten(),
{
    lemma_chunks_flatten(p, c1);
    lemma_chunks_flatten(p, c2);
}

} // verus!
