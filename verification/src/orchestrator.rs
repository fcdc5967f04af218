//! The batch orchestrator: drives a fixed number of independent batches
//! end to end — generate rows, encode, derive the object key, sign,
//! upload — and aggregates the outcomes. One failed batch never halts the
//! others; failures are isolated per batch and reported in the final
//! summary, each identifiable by its object key.
use vstd::prelude::*;

use crate::bytes::{dec_pad, append_bytes, append_dec_pad};
use crate::codec::{EncodedBatch, encode_readings, spec_sensor_image, lz4_of};
use crate::reading::{SensorReading, spec_reading, generate_sensor_data};
use crate::sign::{
    Credentials, HttpMethod, SigningError, sign, spec_sign_ok,
    MAX_SIGNING_INSTANT,
};
use crate::upload::{
    MemoryObjectStore, UploadOutcome, contains_key, spec_put_accepts, upload,
};

verus! {

/// Everything one run needs, passed in explicitly at construction:
/// credentials and endpoints are never compiled into a binary.
pub struct PipelineConfig {
    /// Long-term credentials, shared read-only across batches.
    pub credentials: Credentials,
    /// Target bucket.
    pub bucket: Vec<u8>,
    /// First path component of every object key.
    pub key_prefix: Vec<u8>,
    /// Second path component: the class of device that produced the rows.
    pub device_class: Vec<u8>,
    /// Base name of each uploaded artifact.
    pub artifact: Vec<u8>,
    /// Extension of each uploaded artifact, without the dot.
    pub extension: Vec<u8>,
    /// How many batches to run.
    pub num_batches: usize,
    /// Rows generated per batch.
    pub rows_per_batch: usize,
    /// Upload transfer window in bytes.
    pub chunk_size: usize,
    /// Expiry window of each signed request, in seconds.
    pub expiry_secs: i64,
}

/// The object key of batch `i`:
/// `{prefix}/{device-class}/{artifact}_{iii}.{ext}` with a three-digit
/// zero-padded batch index — stable, sortable, collision-free per run.
pub open spec fn spec_object_key(cfg: PipelineConfig, i: int) -> Seq<u8> {
    cfg.key_prefix@ + seq![47u8] + cfg.device_class@ + seq![47u8] + cfg.artifact@ + seq![95u8]
        + dec_pad(i, 3) + seq![46u8] + cfg.extension@
}

/// Derives the object key of batch `batch_index`.
pub fn object_key(cfg: &PipelineConfig, batch_index: u64) -> (k: Vec<u8>)
    requires
        batch_index < 1000,
    ensures
        k@ == spec_object_key(*cfg, batch_index as int),
{
    let mut k: Vec<u8> = Vec::new();
    append_bytes(&mut k, &cfg.key_prefix);
    k.push(47u8);  // '/'
    append_bytes(&mut k, &cfg.device_class);
    k.push(47u8);  // '/'
    append_bytes(&mut k, &cfg.artifact);
    k.push(95u8);  // '_'
    append_dec_pad(&mut k, batch_index, 3);
    k.push(46u8);  // '.'
    append_bytes(&mut k, &cfg.extension);
    proof {
        assert(k@ =~= spec_object_key(*cfg, batch_index as int));
    }
    k
}

/// How one batch ended.
#[derive(Clone, Debug)]
pub enum BatchResult {
    /// The upload was attempted; the outcome says how it went.
    Uploaded(UploadOutcome),
    /// The request could not even be signed (configuration error).
    SignFailed(SigningError),
}

/// Per-batch line of the run summary: the batch's object key — under
/// which a failed batch can be retried later — and how it ended.
#[derive(Clone, Debug)]
pub struct BatchRecord {
    pub key: Vec<u8>,
    pub result: BatchResult,
}

impl BatchRecord {
    /// A batch succeeded exactly when its upload was confirmed with 2xx.
    pub open spec fn spec_succeeded(&self) -> bool {
        match self.result {
            BatchResult::Uploaded(o) => o.spec_success(),
            BatchResult::SignFailed(_) => false,
        }
    }

    /// Checks [`Self::spec_succeeded`].
    pub fn succeeded(&self) -> (r: bool)
        ensures
            r == self.spec_succeeded(),
    {
        match &self.result {
            BatchResult::Uploaded(o) => o.is_success(),
            BatchResult::SignFailed(_) => false,
        }
    }
}

/// Aggregated result of one run.
#[derive(Clone, Debug)]
pub struct RunSummary {
    /// One record per batch, in batch order.
    pub records: Vec<BatchRecord>,
    /// Batches whose upload the target confirmed.
    pub batches_succeeded: usize,
    /// Batches attempted.
    pub batches_total: usize,
    /// Total bytes the target acknowledged across all batches.
    pub bytes_uploaded: u128,
}

/// The rows of batch `i`.
pub open spec fn spec_batch_rows(cfg: PipelineConfig, i: int) -> Seq<SensorReading> {
    Seq::new(cfg.rows_per_batch as nat, |k: int| spec_reading(i, k))
}

/// The compressed payload of batch `i`.
pub open spec fn spec_batch_payload(cfg: PipelineConfig, i: int) -> Seq<u8> {
    lz4_of(spec_sensor_image(spec_batch_rows(cfg, i)))
}

/// Whether batch `i` of a run over `store0` succeeds: the configuration
/// signs, and the target is not rigged to reject the batch's key.
pub open spec fn spec_batch_ok(cfg: PipelineConfig, store0: MemoryObjectStore, i: int) -> bool {
    spec_sign_ok(cfg.credentials, cfg.bucket@, spec_object_key(cfg, i), cfg.expiry_secs as int)
        && !contains_key(store0.reject_keys@, spec_object_key(cfg, i))
}

/// How many of the first `n` batches succeed.
pub open spec fn spec_succ_count(cfg: PipelineConfig, store0: MemoryObjectStore, n: int) -> int
    decreases n,
{
    if n <= 0 {
        0
    } else {
        spec_succ_count(cfg, store0, n - 1) + if spec_batch_ok(cfg, store0, n - 1) {
            1int
        } else {
            0int
        }
    }
}

/// Total payload bytes of the successful batches among the first `n`.
pub open spec fn spec_bytes_total(cfg: PipelineConfig, store0: MemoryObjectStore, n: int) -> int
    decreases n,
{
    if n <= 0 {
        0
    } else {
        spec_bytes_total(cfg, store0, n - 1) + if spec_batch_ok(cfg, store0, n - 1) {
            spec_batch_payload(cfg, n - 1).len() as int
        } else {
            0int
        }
    }
}

/// The count of successes grows monotonically with the count of batches.
pub proof fn lemma_succ_count_mono(
    cfg: PipelineConfig,
    store0: MemoryObjectStore,
    a: int,
    b: int,
)
    requires
        a <= b,
    ensures
        spec_succ_count(cfg, store0, a) <= spec_succ_count(cfg, store0, b),
    decreases b - a,
{
    if a < b {
        lemma_succ_count_mono(cfg, store0, a, b - 1);
    }
}

/// The count of successes never exceeds the count of batches.
pub proof fn lemma_succ_count_bound(cfg: PipelineConfig, store0: MemoryObjectStore, n: int)
    requires
        n >= 0,
    ensures
        0 <= spec_succ_count(cfg, store0, n) <= n,
    decreases n,
{
    if n > 0 {
        lemma_succ_count_bound(cfg, store0, n - 1);
    }
}

/// The bytes a batch record reports as acknowledged by the target.
pub open spec fn spec_record_sent(rec: BatchRecord) -> int {
    match rec.result {
        BatchResult::Uploaded(o) => o.bytes_sent as int,
        BatchResult::SignFailed(_) => 0,
    }
}

/// Runs one batch end to end: generate, encode, key, sign, upload.
fn run_one_batch(cfg: &PipelineConfig, store: &mut MemoryObjectStore, now: i64, i: u64) -> (rec:
    BatchRecord)
    requires
        0 <= now <= MAX_SIGNING_INSTANT,
        !old(store).pending_active,
        cfg.chunk_size >= 1,
        i < 1000,
        cfg.rows_per_batch <= 1_000_000,
    ensures
        final(store).reject_keys == old(store).reject_keys,
        !final(store).pending_active,
        rec.key@ == spec_object_key(*cfg, i as int),
        rec.spec_succeeded() <==> spec_batch_ok(*cfg, *old(store), i as int),
        spec_batch_ok(*cfg, *old(store), i as int) ==> (final(store).objects@.len() == old(
            store,
        ).objects@.len() + 1 && final(store).objects@.last().key@ == spec_object_key(
            *cfg,
            i as int,
        ) && final(store).objects@.last().data@ == spec_batch_payload(*cfg, i as int) && forall|
            k: int,
        |
            0 <= k < old(store).objects@.len() ==> final(store).objects@[k] == old(
                store,
            ).objects@[k]),
        !spec_batch_ok(*cfg, *old(store), i as int) ==> final(store).objects == old(
            store,
        ).objects,
        spec_record_sent(rec) == if spec_batch_ok(*cfg, *old(store), i as int) {
            spec_batch_payload(*cfg, i as int).len() as int
        } else {
            0int
        },
        spec_record_sent(rec) >= 0,
{
    let readings = generate_sensor_data(i, cfg.rows_per_batch);
    proof {
        assert(readings@ =~= spec_batch_rows(*cfg, i as int));
    }
    let encoded: EncodedBatch = encode_readings(&readings);
    let key = object_key(cfg, i);
    let ghost keyspec = spec_object_key(*cfg, i as int);
    let ghost signable = spec_sign_ok(
        cfg.credentials,
        cfg.bucket@,
        keyspec,
        cfg.expiry_secs as int,
    );
    match sign(&cfg.credentials, &cfg.bucket, &key, HttpMethod::Put, cfg.expiry_secs, now) {
        Ok(sr) => {
            proof {
                assert(signable);
                assert(sr.expires_at >= now);
                assert(spec_put_accepts(*store, sr, now as int) <==> !contains_key(
                    old(store).reject_keys@,
                    keyspec,
                ));
            }
            let outcome = upload(store, &sr, &encoded.bytes, cfg.chunk_size, now);
            BatchRecord { key, result: BatchResult::Uploaded(outcome) }
        },
        Err(e) => {
            proof {
                assert(!signable);
            }
            BatchRecord { key, result: BatchResult::SignFailed(e) }
        },
    }
}

/// Drives `cfg.num_batches` independent batches sequentially: for each,
/// generate the deterministic rows, encode them, derive the batch's
/// object key, sign an upload request, stream the payload to the store,
/// and record the outcome. One failed batch never halts the rest: batch
/// `i`'s record depends only on the configuration and the store's rigged
/// rejections, never on other batches' outcomes. The summary counts the
/// confirmed batches and the bytes the target acknowledged.
#[verifier::rlimit(100)]
pub fn run_batches(cfg: &PipelineConfig, store: &mut MemoryObjectStore, now: i64) -> (s:
    RunSummary)
    requires
        0 <= now <= MAX_SIGNING_INSTANT,
        !old(store).pending_active,
        cfg.chunk_size >= 1,
        cfg.num_batches <= 1000,
        cfg.rows_per_batch <= 1_000_000,
    ensures
        s.batches_total == cfg.num_batches,
        s.records@.len() == cfg.num_batches,
        forall|i: int|
            0 <= i < cfg.num_batches ==> (#[trigger] s.records@[i]).key@ == spec_object_key(
                *cfg,
                i,
            ),
        forall|i: int|
            0 <= i < cfg.num_batches ==> ((#[trigger] s.records@[i]).spec_succeeded()
                <==> spec_batch_ok(*cfg, *old(store), i)),
        s.batches_succeeded == spec_succ_count(*cfg, *old(store), cfg.num_batches as int),
        s.bytes_uploaded == spec_bytes_total(*cfg, *old(store), cfg.num_batches as int),
        final(store).reject_keys == old(store).reject_keys,
        !final(store).pending_active,
        final(store).objects@.len() == old(store).objects@.len() + spec_succ_count(
            *cfg,
            *old(store),
            cfg.num_batches as int,
        ),
        forall|k: int|
            0 <= k < old(store).objects@.len() ==> final(store).objects@[k] == old(
                store,
            ).objects@[k],
        forall|i: int|
            #![trigger spec_succ_count(*cfg, *old(store), i)]
            0 <= i < cfg.num_batches && spec_batch_ok(*cfg, *old(store), i) ==> {
                &&& final(store).objects@[old(store).objects@.len() + spec_succ_count(
                    *cfg,
                    *old(store),
                    i,
                )].key@ == spec_object_key(*cfg, i)
                &&& final(store).objects@[old(store).objects@.len() + spec_succ_count(
                    *cfg,
                    *old(store),
                    i,
                )].data@ == spec_batch_payload(*cfg, i)
            },
{
    let ghost store0 = *old(store);
    let mut records: Vec<BatchRecord> = Vec::new();
    let mut succ: usize = 0;
    let mut total: u128 = 0;
    let mut i: usize = 0;
    while i < cfg.num_batches
        invariant
            i <= cfg.num_batches,
            cfg.num_batches <= 1000,
            cfg.rows_per_batch <= 1_000_000,
            cfg.chunk_size >= 1,
            0 <= now <= MAX_SIGNING_INSTANT,
            store0 == *old(store),
            store.reject_keys == store0.reject_keys,
            !store.pending_active,
            records@.len() == i,
            forall|b: int|
                0 <= b < i ==> (#[trigger] records@[b]).key@ == spec_object_key(*cfg, b),
            forall|b: int|
                0 <= b < i ==> ((#[trigger] records@[b]).spec_succeeded() <==> spec_batch_ok(
                    *cfg,
                    store0,
                    b,
                )),
            succ == spec_succ_count(*cfg, store0, i as int),
            succ <= i,
            total == spec_bytes_total(*cfg, store0, i as int),
            total <= (i as int) * 0x1_0000_0000_0000_0000,
            store.objects@.len() == store0.objects@.len() + spec_succ_count(
                *cfg,
                store0,
                i as int,
            ),
            forall|k: int|
                0 <= k < store0.objects@.len() ==> store.objects@[k] == store0.objects@[k],
            forall|b: int|
                #![trigger spec_succ_count(*cfg, store0, b)]
                0 <= b < i && spec_batch_ok(*cfg, store0, b) ==> {
                    &&& store.objects@[store0.objects@.len() + spec_succ_count(
                        *cfg,
                        store0,
                        b,
                    )].key@ == spec_object_key(*cfg, b)
                    &&& store.objects@[store0.objects@.len() + spec_succ_count(
                        *cfg,
                        store0,
                        b,
                    )].data@ == spec_batch_payload(*cfg, b)
                },
        decreases cfg.num_batches - i,
    {
        let ghost pre = *store;
        let record = run_one_batch(cfg, store, now, i as u64);
        let ghost ok_i = spec_batch_ok(*cfg, store0, i as int);
        proof {
            assert(spec_batch_ok(*cfg, pre, i as int) == ok_i);
            assert(record.spec_succeeded() <==> ok_i);
        }
        if record.succeeded() {
            succ = succ + 1;
        }
        let sent: usize = match &record.result {
            BatchResult::Uploaded(o) => o.bytes_sent,
            BatchResult::SignFailed(_) => 0,
        };
        proof {
            assert(sent as int == spec_record_sent(record));
        }
        proof {
            assert(sent as int <= 0x1_0000_0000_0000_0000);
            assert(total + sent <= (i as int + 1) * 0x1_0000_0000_0000_0000) by (nonlinear_arith)
                requires
                    total <= (i as int) * 0x1_0000_0000_0000_0000,
                    sent as int <= 0x1_0000_0000_0000_0000,
            ;
            assert((i as int + 1) * 0x1_0000_0000_0000_0000 <= 1001 * 0x1_0000_0000_0000_0000)
                by (nonlinear_arith)
                requires
                    i as int + 1 <= 1001,
            ;
        }
        total = total + sent as u128;
        records.push(record);
        proof {
            assert(spec_succ_count(*cfg, store0, i + 1) == spec_succ_count(*cfg, store0, i as int)
                + if ok_i {
                1int
            } else {
                0int
            });
            assert(spec_bytes_total(*cfg, store0, i + 1) == spec_bytes_total(
                *cfg,
                store0,
                i as int,
            ) + if ok_i {
                spec_batch_payload(*cfg, i as int).len() as int
            } else {
                0int
            });
            assert forall|b: int|
                #![trigger spec_succ_count(*cfg, store0, b)]
                0 <= b < i + 1 && spec_batch_ok(*cfg, store0, b) implies {
                &&& store.objects@[store0.objects@.len() + spec_succ_count(
                    *cfg,
                    store0,
                    b,
                )].key@ == spec_object_key(*cfg, b)
                &&& store.objects@[store0.objects@.len() + spec_succ_count(
                    *cfg,
                    store0,
                    b,
                )].data@ == spec_batch_payload(*cfg, b)
            } by {
                lemma_succ_count_bound(*cfg, store0, b);
                if b < i {
                    lemma_succ_count_mono(*cfg, store0, b + 1, i as int);
                    assert(spec_succ_count(*cfg, store0, b + 1) == spec_succ_count(
                        *cfg,
                        store0,
                        b,
                    ) + 1);
                    assert(store0.objects@.len() + spec_succ_count(*cfg, store0, b)
                        < pre.objects@.len());
                } else {
                    assert(b == i);
                    assert(store0.objects@.len() + spec_succ_count(*cfg, store0, b)
                        == pre.objects@.len());
                }
            }
        }
        i = i + 1;
    }
    RunSummary {
        records,
        batches_succeeded: succ,
        batches_total: cfg.num_batches,
        bytes_uploaded: total,
    }
}

} // verus!
