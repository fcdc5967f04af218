//! The request signer: derives a single-use, time-limited presigned URL
//! for one upload from long-term credentials, the target location, and an
//! expiry window.
//!
//! The scheme is the canonical presigned-URL request signing of the target
//! object store: a canonical request (method, path, sorted query
//! parameters, signed headers, unsigned payload marker), a string to sign
//! holding the hex digest of that request, a signing key derived by an
//! HMAC chain scoped to date, region and service, and the final signature
//! appended as the last query parameter. Signing is a pure function of its
//! inputs and the signing instant, so two calls with identical inputs and
//! the same clock yield byte-identical URLs.
use vstd::prelude::*;
use vstd::string::StringSliceAdditionalSpecFns;

use crate::bytes::{
    dec_of, dec_pad, hex_of, append_u64_dec, append_dec_pad, append_hex, append_str,
    append_bytes,
};

verus! {

// ---------------------------------------------------------------------
// Calendar arithmetic: the signing instant rendered as the scheme's
// timestamp and date stamp.
// ---------------------------------------------------------------------
/// Gregorian leap-year rule.
pub open spec fn is_leap(y: int) -> bool {
    y % 4 == 0 && (y % 100 != 0 || y % 400 == 0)
}

/// Days in year `y`.
pub open spec fn days_in_year(y: int) -> int {
    if is_leap(y) {
        366
    } else {
        365
    }
}

/// Days in month `m` (1-based) of year `y`.
pub open spec fn days_in_month(y: int, m: int) -> int {
    if m == 2 {
        if is_leap(y) {
            29
        } else {
            28
        }
    } else if m == 4 || m == 6 || m == 9 || m == 11 {
        30
    } else {
        31
    }
}

/// Walks whole years forward from year `y`: the year that day `rem`
/// (counted from the start of `y`) falls in, and the day index left over.
pub open spec fn spec_year_split(y: int, rem: int) -> (int, int)
    decreases rem,
{
    if rem >= days_in_year(y) {
        spec_year_split(y + 1, rem - days_in_year(y))
    } else {
        (y, rem)
    }
}

/// Walks whole months forward from month `m` of year `y`: the month that
/// day `rem` (counted from the start of `m`) falls in, and the day index
/// left over.
pub open spec fn spec_month_split(y: int, m: int, rem: int) -> (int, int)
    decreases 12 - m,
{
    if m < 12 && rem >= days_in_month(y, m) {
        spec_month_split(y, m + 1, rem - days_in_month(y, m))
    } else {
        (m, rem)
    }
}

/// The civil date (year, month, day) of a day count since the Unix epoch.
pub open spec fn spec_civil(days: int) -> (int, int, int) {
    let ys = spec_year_split(1970, days);
    let ms = spec_month_split(ys.0, 1, ys.1);
    (ys.0, ms.0, ms.1 + 1)
}

/// The civil date of a day count since the Unix epoch, as executable code.
pub fn civil_from_days(days: i64) -> (r: (i64, i64, i64))
    requires
        0 <= days <= 3_000_000,
    ensures
        r.0 == spec_civil(days as int).0,
        r.1 == spec_civil(days as int).1,
        r.2 == spec_civil(days as int).2,
        1970 <= r.0 <= 10200,
        1 <= r.1 <= 12,
        1 <= r.2 <= 366,
{
    let mut y: i64 = 1970;
    let mut rem: i64 = days;
    loop
        invariant
            1970 <= y,
            0 <= rem <= days,
            days <= 3_000_000,
            365 * (y - 1970) <= days - rem,
            spec_year_split(1970, days as int) == spec_year_split(y as int, rem as int),
        ensures
            1970 <= y,
            0 <= rem <= days,
            365 * (y - 1970) <= days - rem,
            rem < days_in_year(y as int),
            spec_year_split(1970, days as int) == spec_year_split(y as int, rem as int),
        decreases rem,
    {
        let diy: i64 = if (y % 4 == 0 && (y % 100 != 0 || y % 400 == 0)) {
            366
        } else {
            365
        };
        proof {
            assert(diy == days_in_year(y as int));
        }
        if rem < diy {
            break ;
        }
        rem = rem - diy;
        y = y + 1;
    }
    proof {
        assert(spec_year_split(y as int, rem as int) == (y as int, rem as int));
        assert(y <= 10200);
    }
    let mut m: i64 = 1;
    let ghost rem1 = rem as int;
    loop
        invariant
            1 <= m <= 12,
            0 <= rem,
            rem as int <= rem1,
            rem1 <= 365,
            spec_month_split(y as int, 1, rem1) == spec_month_split(
                y as int,
                m as int,
                rem as int,
            ),
            rem1 == spec_year_split(1970, days as int).1,
            y == spec_year_split(1970, days as int).0,
            1970 <= y <= 10200,
        ensures
            1 <= m <= 12,
            0 <= rem <= 365,
            spec_month_split(y as int, 1, rem1) == spec_month_split(
                y as int,
                m as int,
                rem as int,
            ),
            spec_month_split(y as int, m as int, rem as int) == (m as int, rem as int),
            rem1 == spec_year_split(1970, days as int).1,
            y == spec_year_split(1970, days as int).0,
            1970 <= y <= 10200,
        decreases 12 - m,
    {
        let dim: i64 = if m == 2 {
            if (y % 4 == 0 && (y % 100 != 0 || y % 400 == 0)) {
                29
            } else {
                28
            }
        } else if m == 4 || m == 6 || m == 9 || m == 11 {
            30
        } else {
            31
        };
        proof {
            assert(dim == days_in_month(y as int, m as int));
        }
        if m >= 12 || rem < dim {
            break ;
        }
        rem = rem - dim;
        m = m + 1;
    }
    (y, m, rem + 1)
}

/// The scheme's timestamp for instant `t`: `YYYYMMDDTHHMMSSZ`.
pub open spec fn spec_amz_date(t: int) -> Seq<u8> {
    let c = spec_civil(t / 86400);
    let secs = t % 86400;
    dec_pad(c.0, 4) + dec_pad(c.1, 2) + dec_pad(c.2, 2) + seq![84u8] + dec_pad(secs / 3600, 2)
        + dec_pad((secs % 3600) / 60, 2) + dec_pad(secs % 60, 2) + seq![90u8]
}

/// The scheme's date stamp for instant `t`: `YYYYMMDD`.
pub open spec fn spec_date_stamp(t: int) -> Seq<u8> {
    let c = spec_civil(t / 86400);
    dec_pad(c.0, 4) + dec_pad(c.1, 2) + dec_pad(c.2, 2)
}

/// Latest signing instant handled: the last second of year 9999.
pub const MAX_SIGNING_INSTANT: i64 = 253_402_300_799;

/// Appends the `YYYYMMDD` date stamp of instant `t`.
pub fn append_date_stamp(buf: &mut Vec<u8>, t: i64)
    requires
        0 <= t <= MAX_SIGNING_INSTANT,
    ensures
        final(buf)@ == old(buf)@ + spec_date_stamp(t as int),
{
    let days: i64 = t / 86400;
    let c = civil_from_days(days);
    append_dec_pad(buf, c.0 as u64, 4);
    append_dec_pad(buf, c.1 as u64, 2);
    append_dec_pad(buf, c.2 as u64, 2);
    proof {
        assert(final(buf)@ =~= old(buf)@ + spec_date_stamp(t as int));
    }
}

/// Appends the `YYYYMMDDTHHMMSSZ` timestamp of instant `t`.
pub fn append_amz_date(buf: &mut Vec<u8>, t: i64)
    requires
        0 <= t <= MAX_SIGNING_INSTANT,
    ensures
        final(buf)@ == old(buf)@ + spec_amz_date(t as int),
{
    let days: i64 = t / 86400;
    let c = civil_from_days(days);
    let secs: i64 = t % 86400;
    append_dec_pad(buf, c.0 as u64, 4);
    append_dec_pad(buf, c.1 as u64, 2);
    append_dec_pad(buf, c.2 as u64, 2);
    buf.push(84u8);  // 'T'
    append_dec_pad(buf, (secs / 3600) as u64, 2);
    append_dec_pad(buf, ((secs % 3600) / 60) as u64, 2);
    append_dec_pad(buf, (secs % 60) as u64, 2);
    buf.push(90u8);  // 'Z'
    proof {
        assert(final(buf)@ =~= old(buf)@ + spec_amz_date(t as int));
    }
}

// ---------------------------------------------------------------------
// The digest and the keyed digest.
// ---------------------------------------------------------------------
/// The 32-byte digest that the hash function yields for `data`.
pub uninterp spec fn sha256_of(data: Seq<u8>) -> Seq<u8>;

/// Relies on sha2::Sha256 through the Digest trait: the 32-byte digest is
/// a function of the input bytes alone.
#[verifier::external_body]
fn sha256(data: &Vec<u8>) -> (r: Vec<u8>)
    ensures
        r@ == sha256_of(data@),
        r@.len() == 32,
{
    let d = <sha2::Sha256 as sha2::Digest>::digest(data.as_slice());
    d.as_slice().to_vec()
}

/// The 64-byte block of `k` zero-padded to 64 bytes with every byte xored
/// with `x`.
pub open spec fn xor_pad(k: Seq<u8>, x: u8) -> Seq<u8> {
    Seq::new(64, |i: int| (if i < k.len() { k[i] } else { 0u8 }) ^ x)
}

/// The keyed digest of `msg` under `key`: the standard two-pass
/// construction over the 32-byte hash with its 64-byte block.
pub open spec fn spec_hmac(key: Seq<u8>, msg: Seq<u8>) -> Seq<u8> {
    let k = if key.len() > 64 {
        sha256_of(key)
    } else {
        key
    };
    sha256_of(xor_pad(k, 0x5c) + sha256_of(xor_pad(k, 0x36) + msg))
}

/// Appends `k` zero-padded to 64 bytes, each byte xored with `x`.
fn append_xor_pad(buf: &mut Vec<u8>, k: &Vec<u8>, x: u8)
    ensures
        final(buf)@ == old(buf)@ + xor_pad(k@, x),
{
    let mut i: usize = 0;
    while i < 64
        invariant
            i <= 64,
            buf@ == old(buf)@ + xor_pad(k@, x).subrange(0, i as int),
        decreases 64 - i,
    {
        let b: u8 = if i < k.len() {
            k[i]
        } else {
            0u8
        };
        buf.push(b ^ x);
        proof {
            assert(buf@ =~= old(buf)@ + xor_pad(k@, x).subrange(0, i + 1 as int));
        }
        i = i + 1;
    }
    proof {
        assert(xor_pad(k@, x).subrange(0, 64) =~= xor_pad(k@, x));
    }
}

/// The keyed digest of `msg` under `key`, as executable code.
pub fn hmac_sha256(key: &Vec<u8>, msg: &Vec<u8>) -> (r: Vec<u8>)
    ensures
        r@ == spec_hmac(key@, msg@),
        r@.len() == 32,
{
    let kd: Vec<u8> = if key.len() > 64 {
        sha256(key)
    } else {
        let mut copy: Vec<u8> = Vec::new();
        append_bytes(&mut copy, key);
        proof {
            assert(copy@ =~= key@);
        }
        copy
    };
    let mut inner: Vec<u8> = Vec::new();
    append_xor_pad(&mut inner, &kd, 0x36);
    append_bytes(&mut inner, msg);
    let ih = sha256(&inner);
    let mut outer: Vec<u8> = Vec::new();
    append_xor_pad(&mut outer, &kd, 0x5c);
    append_bytes(&mut outer, &ih);
    sha256(&outer)
}

// ---------------------------------------------------------------------
// Input validity.
// ---------------------------------------------------------------------
/// A byte that needs no escaping anywhere in a URL.
pub open spec fn uri_unreserved(b: u8) -> bool {
    (48 <= b <= 57) || (65 <= b <= 90) || (97 <= b <= 122) || b == 45 || b == 46 || b == 95
        || b == 126
}

/// A well-formed credential token (access key id or region): nonempty,
/// URL-safe bytes.
pub open spec fn valid_token(s: Seq<u8>) -> bool {
    s.len() > 0 && forall|i: int| 0 <= i < s.len() ==> uri_unreserved(#[trigger] s[i])
}

/// A well-formed bucket name: nonempty lower-case letters, digits,
/// hyphens and dots.
pub open spec fn valid_bucket(s: Seq<u8>) -> bool {
    s.len() > 0 && forall|i: int|
        0 <= i < s.len() ==> ((97 <= #[trigger] s[i] <= 122) || (48 <= s[i] <= 57) || s[i] == 45
            || s[i] == 46)
}

/// A well-formed object key: nonempty URL-safe bytes and slashes.
pub open spec fn valid_key(s: Seq<u8>) -> bool {
    s.len() > 0 && forall|i: int|
        0 <= i < s.len() ==> (uri_unreserved(#[trigger] s[i]) || s[i] == 47)
}

/// Checks [`valid_token`].
pub fn is_valid_token(s: &Vec<u8>) -> (r: bool)
    ensures
        r <==> valid_token(s@),
{
    if s.len() == 0 {
        return false;
    }
    let mut i: usize = 0;
    while i < s.len()
        invariant
            i <= s@.len(),
            forall|k: int| 0 <= k < i ==> uri_unreserved(#[trigger] s@[k]),
        decreases s@.len() - i,
    {
        let b = s[i];
        if !((48 <= b && b <= 57) || (65 <= b && b <= 90) || (97 <= b && b <= 122) || b == 45
            || b == 46 || b == 95 || b == 126) {
            return false;
        }
        i = i + 1;
    }
    true
}

/// Checks [`valid_bucket`].
pub fn is_valid_bucket(s: &Vec<u8>) -> (r: bool)
    ensures
        r <==> valid_bucket(s@),
{
    if s.len() == 0 {
        return false;
    }
    let mut i: usize = 0;
    while i < s.len()
        invariant
            i <= s@.len(),
            forall|k: int|
                0 <= k < i ==> ((97 <= #[trigger] s@[k] <= 122) || (48 <= s@[k] <= 57) || s@[k]
                    == 45 || s@[k] == 46),
        decreases s@.len() - i,
    {
        let b = s[i];
        if !((97 <= b && b <= 122) || (48 <= b && b <= 57) || b == 45 || b == 46) {
            return false;
        }
        i = i + 1;
    }
    true
}

/// Checks [`valid_key`].
pub fn is_valid_key(s: &Vec<u8>) -> (r: bool)
    ensures
        r <==> valid_key(s@),
{
    if s.len() == 0 {
        return false;
    }
    let mut i: usize = 0;
    while i < s.len()
        invariant
            i <= s@.len(),
            forall|k: int| 0 <= k < i ==> (uri_unreserved(#[trigger] s@[k]) || s@[k] == 47),
        decreases s@.len() - i,
    {
        let b = s[i];
        if !((48 <= b && b <= 57) || (65 <= b && b <= 90) || (97 <= b && b <= 122) || b == 45
            || b == 46 || b == 95 || b == 126 || b == 47) {
            return false;
        }
        i = i + 1;
    }
    true
}

// ---------------------------------------------------------------------
// The signed request.
// ---------------------------------------------------------------------
/// Long-term credentials for the object store, shared read-only across
/// batches. Never compiled into a binary: callers source them at startup.
pub struct Credentials {
    pub access_key: Vec<u8>,
    pub secret_key: Vec<u8>,
    pub region: Vec<u8>,
}

/// HTTP method of the one request a signed URL authorizes.
#[derive(Clone, Copy, PartialEq, Eq, Structural, Debug)]
pub enum HttpMethod {
    Put,
    Get,
}

/// A time-limited capability: whoever holds the URL may perform the one
/// operation on the one object until the expiry instant.
#[derive(Debug)]
pub struct SignedRequest {
    /// The presigned URL, ASCII bytes.
    pub url: Vec<u8>,
    /// Bucket the request addresses.
    pub bucket: Vec<u8>,
    /// Object key the request addresses.
    pub key: Vec<u8>,
    /// Method the request authorizes.
    pub method: HttpMethod,
    /// Instant (seconds since the epoch) after which the target rejects
    /// the request.
    pub expires_at: i64,
}

/// Why a request could not be signed.
#[derive(Clone, Copy, PartialEq, Eq, Structural, Debug)]
pub enum SigningError {
    /// Empty or non-URL-safe access key or region, or an empty secret.
    MalformedCredentials,
    /// Empty or non-URL-safe bucket or key.
    MalformedTarget,
    /// Expiry outside 1..=604800 seconds (one week), the scheme's bound.
    InvalidExpiry,
}

/// The method name on the request line.
pub open spec fn method_bytes(m: HttpMethod) -> Seq<u8> {
    match m {
        HttpMethod::Put => "PUT".spec_bytes(),
        HttpMethod::Get => "GET".spec_bytes(),
    }
}

/// Virtual-hosted-style host of a bucket in a region.
pub open spec fn spec_host(bucket: Seq<u8>, region: Seq<u8>) -> Seq<u8> {
    bucket + ".s3.".spec_bytes() + region + ".amazonaws.com".spec_bytes()
}

/// The credential query value: access key and scope, slashes URL-encoded.
pub open spec fn spec_credential_q(access: Seq<u8>, region: Seq<u8>, t: int) -> Seq<u8> {
    access + "%2F".spec_bytes() + spec_date_stamp(t) + "%2F".spec_bytes() + region
        + "%2Fs3%2Faws4_request".spec_bytes()
}

/// The sorted query parameters up to and including `X-Amz-Expires=`.
pub open spec fn spec_query_head(access: Seq<u8>, region: Seq<u8>, t: int) -> Seq<u8> {
    "X-Amz-Algorithm=AWS4-HMAC-SHA256&X-Amz-Credential=".spec_bytes() + spec_credential_q(
        access,
        region,
        t,
    ) + "&X-Amz-Date=".spec_bytes() + spec_amz_date(t) + "&X-Amz-Expires=".spec_bytes()
}

/// The canonical query string (every signed parameter, sorted).
pub open spec fn spec_query(access: Seq<u8>, region: Seq<u8>, t: int, e: int) -> Seq<u8> {
    spec_query_head(access, region, t) + dec_of(e) + "&X-Amz-SignedHeaders=host".spec_bytes()
}

/// The canonical request: method, path, canonical query, canonical
/// headers (host only), signed-header list, unsigned-payload marker.
pub open spec fn spec_canonical_request(
    m: HttpMethod,
    access: Seq<u8>,
    region: Seq<u8>,
    bucket: Seq<u8>,
    key: Seq<u8>,
    t: int,
    e: int,
) -> Seq<u8> {
    method_bytes(m) + seq![10u8] + "/".spec_bytes() + key + seq![10u8] + spec_query(
        access,
        region,
        t,
        e,
    ) + seq![10u8] + "host:".spec_bytes() + spec_host(bucket, region) + seq![10u8] + seq![10u8]
        + "host".spec_bytes() + seq![10u8] + "UNSIGNED-PAYLOAD".spec_bytes()
}

/// The credential scope: date, region, service, terminator.
pub open spec fn spec_scope(region: Seq<u8>, t: int) -> Seq<u8> {
    spec_date_stamp(t) + "/".spec_bytes() + region + "/s3/aws4_request".spec_bytes()
}

/// The string to sign: algorithm, timestamp, scope, and the hex digest of
/// the canonical request.
pub open spec fn spec_string_to_sign(
    m: HttpMethod,
    access: Seq<u8>,
    region: Seq<u8>,
    bucket: Seq<u8>,
    key: Seq<u8>,
    t: int,
    e: int,
) -> Seq<u8> {
    "AWS4-HMAC-SHA256".spec_bytes() + seq![10u8] + spec_amz_date(t) + seq![10u8] + spec_scope(
        region,
        t,
    ) + seq![10u8] + hex_of(sha256_of(spec_canonical_request(m, access, region, bucket, key, t, e)))
}

/// The signing key: the keyed-digest chain over date, region, service and
/// terminator, rooted in the secret.
pub open spec fn spec_signing_key(secret: Seq<u8>, region: Seq<u8>, t: int) -> Seq<u8> {
    spec_hmac(
        spec_hmac(
            spec_hmac(spec_hmac("AWS4".spec_bytes() + secret, spec_date_stamp(t)), region),
            "s3".spec_bytes(),
        ),
        "aws4_request".spec_bytes(),
    )
}

/// The final signature, hex-rendered.
pub open spec fn spec_signature(
    m: HttpMethod,
    access: Seq<u8>,
    secret: Seq<u8>,
    region: Seq<u8>,
    bucket: Seq<u8>,
    key: Seq<u8>,
    t: int,
    e: int,
) -> Seq<u8> {
    hex_of(
        spec_hmac(
            spec_signing_key(secret, region, t),
            spec_string_to_sign(m, access, region, bucket, key, t, e),
        ),
    )
}

/// Everything of the presigned URL before the expiry value. It does not
/// depend on the expiry window.
pub open spec fn spec_url_head(
    access: Seq<u8>,
    region: Seq<u8>,
    bucket: Seq<u8>,
    key: Seq<u8>,
    t: int,
) -> Seq<u8> {
    "https://".spec_bytes() + spec_host(bucket, region) + "/".spec_bytes() + key
        + "?".spec_bytes() + spec_query_head(access, region, t)
}

/// The fixed parameters between the expiry value and the signature. They
/// do not depend on the expiry window either.
pub open spec fn spec_url_tail() -> Seq<u8> {
    "&X-Amz-SignedHeaders=host&X-Amz-Signature=".spec_bytes()
}

/// The whole presigned URL.
pub open spec fn spec_presigned_url(
    m: HttpMethod,
    access: Seq<u8>,
    secret: Seq<u8>,
    region: Seq<u8>,
    bucket: Seq<u8>,
    key: Seq<u8>,
    t: int,
    e: int,
) -> Seq<u8> {
    spec_url_head(access, region, bucket, key, t) + dec_of(e) + spec_url_tail() + spec_signature(
        m,
        access,
        secret,
        region,
        bucket,
        key,
        t,
        e,
    )
}

/// All inputs well formed: the one condition under which signing succeeds.
pub open spec fn spec_sign_ok(
    creds: Credentials,
    bucket: Seq<u8>,
    key: Seq<u8>,
    e: int,
) -> bool {
    valid_token(creds.access_key@) && creds.secret_key@.len() > 0 && valid_token(creds.region@)
        && valid_bucket(bucket) && valid_key(key) && 1 <= e <= 604800
}

/// Appends the virtual-hosted host name.
fn append_host(buf: &mut Vec<u8>, bucket: &Vec<u8>, region: &Vec<u8>)
    ensures
        final(buf)@ == old(buf)@ + spec_host(bucket@, region@),
{
    append_bytes(buf, bucket);
    append_str(buf, ".s3.");
    append_bytes(buf, region);
    append_str(buf, ".amazonaws.com");
    proof {
        assert(final(buf)@ =~= old(buf)@ + spec_host(bucket@, region@));
    }
}

/// Appends the URL-encoded credential query value.
fn append_credential_q(buf: &mut Vec<u8>, access: &Vec<u8>, region: &Vec<u8>, t: i64)
    requires
        0 <= t <= MAX_SIGNING_INSTANT,
    ensures
        final(buf)@ == old(buf)@ + spec_credential_q(access@, region@, t as int),
{
    append_bytes(buf, access);
    append_str(buf, "%2F");
    append_date_stamp(buf, t);
    append_str(buf, "%2F");
    append_bytes(buf, region);
    append_str(buf, "%2Fs3%2Faws4_request");
    proof {
        assert(final(buf)@ =~= old(buf)@ + spec_credential_q(access@, region@, t as int));
    }
}

/// Appends the query parameters up to and including `X-Amz-Expires=`.
fn append_query_head(buf: &mut Vec<u8>, access: &Vec<u8>, region: &Vec<u8>, t: i64)
    requires
        0 <= t <= MAX_SIGNING_INSTANT,
    ensures
        final(buf)@ == old(buf)@ + spec_query_head(access@, region@, t as int),
{
    append_str(buf, "X-Amz-Algorithm=AWS4-HMAC-SHA256&X-Amz-Credential=");
    append_credential_q(buf, access, region, t);
    append_str(buf, "&X-Amz-Date=");
    append_amz_date(buf, t);
    append_str(buf, "&X-Amz-Expires=");
    proof {
        assert(final(buf)@ =~= old(buf)@ + spec_query_head(access@, region@, t as int));
    }
}

/// Appends the whole canonical request.
#[verifier::rlimit(60)]
fn append_canonical_request(
    buf: &mut Vec<u8>,
    method: HttpMethod,
    access: &Vec<u8>,
    region: &Vec<u8>,
    bucket: &Vec<u8>,
    key: &Vec<u8>,
    t: i64,
    e: i64,
)
    requires
        0 <= t <= MAX_SIGNING_INSTANT,
        1 <= e <= 604800,
    ensures
        final(buf)@ == old(buf)@ + spec_canonical_request(
            method,
            access@,
            region@,
            bucket@,
            key@,
            t as int,
            e as int,
        ),
{
    match method {
        HttpMethod::Put => append_str(buf, "PUT"),
        HttpMethod::Get => append_str(buf, "GET"),
    }
    buf.push(10u8);
    append_str(buf, "/");
    append_bytes(buf, key);
    buf.push(10u8);
    append_query_head(buf, access, region, t);
    append_u64_dec(buf, e as u64);
    append_str(buf, "&X-Amz-SignedHeaders=host");
    buf.push(10u8);
    append_str(buf, "host:");
    append_host(buf, bucket, region);
    buf.push(10u8);
    buf.push(10u8);
    append_str(buf, "host");
    buf.push(10u8);
    append_str(buf, "UNSIGNED-PAYLOAD");
    proof {
        assert(final(buf)@ =~= old(buf)@ + spec_canonical_request(
            method,
            access@,
            region@,
            bucket@,
            key@,
            t as int,
            e as int,
        ));
    }
}

/// Appends the credential scope.
fn append_scope(buf: &mut Vec<u8>, region: &Vec<u8>, t: i64)
    requires
        0 <= t <= MAX_SIGNING_INSTANT,
    ensures
        final(buf)@ == old(buf)@ + spec_scope(region@, t as int),
{
    append_date_stamp(buf, t);
    append_str(buf, "/");
    append_bytes(buf, region);
    append_str(buf, "/s3/aws4_request");
    proof {
        assert(final(buf)@ =~= old(buf)@ + spec_scope(region@, t as int));
    }
}

/// Derives the single-use, time-limited authorization for one request:
/// a presigned URL valid until `now + expiry_secs`. A pure function of
/// its inputs and the signing instant `now` (seconds since the epoch,
/// from an externally synchronized clock): identical inputs under an
/// identical clock give a byte-identical URL. Fails exactly on malformed
/// credentials, a malformed target, or an out-of-range expiry window.
pub fn sign(
    creds: &Credentials,
    bucket: &Vec<u8>,
    key: &Vec<u8>,
    method: HttpMethod,
    expiry_secs: i64,
    now: i64,
) -> (r: Result<SignedRequest, SigningError>)
    requires
        0 <= now <= MAX_SIGNING_INSTANT,
    ensures
        spec_sign_ok(*creds, bucket@, key@, expiry_secs as int) ==> (r matches Ok(sr)
            && sr.url@ == spec_presigned_url(
            method,
            creds.access_key@,
            creds.secret_key@,
            creds.region@,
            bucket@,
            key@,
            now as int,
            expiry_secs as int,
        ) && sr.expires_at == now + expiry_secs && sr.bucket@ == bucket@ && sr.key@ == key@
            && sr.method == method),
        !(valid_token(creds.access_key@) && creds.secret_key@.len() > 0 && valid_token(
            creds.region@,
        )) ==> r == Result::<SignedRequest, SigningError>::Err(SigningError::MalformedCredentials),
        (valid_token(creds.access_key@) && creds.secret_key@.len() > 0 && valid_token(
            creds.region@,
        ) && !(valid_bucket(bucket@) && valid_key(key@))) ==> r == Result::<
            SignedRequest,
            SigningError,
        >::Err(SigningError::MalformedTarget),
        (valid_token(creds.access_key@) && creds.secret_key@.len() > 0 && valid_token(
            creds.region@,
        ) && valid_bucket(bucket@) && valid_key(key@) && !(1 <= expiry_secs <= 604800)) ==> r
            == Result::<SignedRequest, SigningError>::Err(SigningError::InvalidExpiry),
{
    if !(is_valid_token(&creds.access_key) && creds.secret_key.len() > 0 && is_valid_token(
        &creds.region,
    )) {
        return Err(SigningError::MalformedCredentials);
    }
    if !(is_valid_bucket(bucket) && is_valid_key(key)) {
        return Err(SigningError::MalformedTarget);
    }
    if !(1 <= expiry_secs && expiry_secs <= 604800) {
        return Err(SigningError::InvalidExpiry);
    }

    let mut canonical: Vec<u8> = Vec::new();
    append_canonical_request(
        &mut canonical,
        method,
        &creds.access_key,
        &creds.region,
        bucket,
        key,
        now,
        expiry_secs,
    );
    proof {
        assert(canonical@ =~= spec_canonical_request(
            method,
            creds.access_key@,
            creds.region@,
            bucket@,
            key@,
            now as int,
            expiry_secs as int,
        ));
    }
    let crh = sha256(&canonical);

    let mut sts: Vec<u8> = Vec::new();
    append_str(&mut sts, "AWS4-HMAC-SHA256");
    sts.push(10u8);
    append_amz_date(&mut sts, now);
    sts.push(10u8);
    append_scope(&mut sts, &creds.region, now);
    sts.push(10u8);
    append_hex(&mut sts, &crh);
    proof {
        assert(sts@ =~= spec_string_to_sign(
            method,
            creds.access_key@,
            creds.region@,
            bucket@,
            key@,
            now as int,
            expiry_secs as int,
        ));
    }

    let mut root: Vec<u8> = Vec::new();
    append_str(&mut root, "AWS4");
    append_bytes(&mut root, &creds.secret_key);
    proof {
        assert(root@ =~= "AWS4".spec_bytes() + creds.secret_key@);
    }
    let mut ds: Vec<u8> = Vec::new();
    append_date_stamp(&mut ds, now);
    proof {
        assert(ds@ =~= spec_date_stamp(now as int));
    }
    let k_date = hmac_sha256(&root, &ds);
    let k_region = hmac_sha256(&k_date, &creds.region);
    let mut svc: Vec<u8> = Vec::new();
    append_str(&mut svc, "s3");
    proof {
        assert(svc@ =~= "s3".spec_bytes());
    }
    let k_service = hmac_sha256(&k_region, &svc);
    let mut term: Vec<u8> = Vec::new();
    append_str(&mut term, "aws4_request");
    proof {
        assert(term@ =~= "aws4_request".spec_bytes());
    }
    let k_signing = hmac_sha256(&k_service, &term);
    proof {
        assert(k_signing@ == spec_signing_key(creds.secret_key@, creds.region@, now as int));
    }
    let sig = hmac_sha256(&k_signing, &sts);

    let mut url: Vec<u8> = Vec::new();
    append_str(&mut url, "https://");
    append_host(&mut url, bucket, &creds.region);
    append_str(&mut url, "/");
    append_bytes(&mut url, key);
    append_str(&mut url, "?");
    append_query_head(&mut url, &creds.access_key, &creds.region, now);
    append_u64_dec(&mut url, expiry_secs as u64);
    append_str(&mut url, "&X-Amz-SignedHeaders=host&X-Amz-Signature=");
    append_hex(&mut url, &sig);
    proof {
        assert(url@ =~= spec_presigned_url(
            method,
            creds.access_key@,
            creds.secret_key@,
            creds.region@,
            bucket@,
            key@,
            now as int,
            expiry_secs as int,
        ));
    }

    let mut bkt: Vec<u8> = Vec::new();
    append_bytes(&mut bkt, bucket);
    let mut k2: Vec<u8> = Vec::new();
    append_bytes(&mut k2, key);
    proof {
        assert(bkt@ =~= bucket@);
        assert(k2@ =~= key@);
    }
    Ok(
        SignedRequest {
            url,
            bucket: bkt,
            key: k2,
            method,
            expires_at: now + expiry_secs,
        },
    )
}

/// Signature determinism: the presigned URL is a function of the inputs
/// and the signing instant alone, so two URLs signed from identical
/// inputs under an identical clock are byte-identical.
pub proof fn lemma_sign_deterministic(
    u1: Seq<u8>,
    u2: Seq<u8>,
    m: HttpMethod,
    access: Seq<u8>,
    secret: Seq<u8>,
    region: Seq<u8>,
    bucket: Seq<u8>,
    key: Seq<u8>,
    t: int,
    e: int,
)
    requires
        u1 == spec_presigned_url(m, access, secret, region, bucket, key, t, e),
        u2 == spec_presigned_url(m, access, secret, region, bucket, key, t, e),
    ensures
        u1 == u2,
{
}

/// Varying only the expiry window moves only the expiry value and the
/// signature: the URL always decomposes into a head and a tail that do
/// not depend on the expiry, around the rendered expiry value, with the
/// signature last. (The signature itself covers the expiry, so it changes
/// with it; every other parameter stays byte-identical.)
pub proof fn lemma_expiry_localized(
    m: HttpMethod,
    access: Seq<u8>,
    secret: Seq<u8>,
    region: Seq<u8>,
    bucket: Seq<u8>,
    key: Seq<u8>,
    t: int,
    e1: int,
    e2: int,
)
    ensures
        spec_presigned_url(m, access, secret, region, bucket, key, t, e1) == spec_url_head(
            access,
            region,
            bucket,
            key,
            t,
        ) + dec_of(e1) + spec_url_tail() + spec_signature(
            m,
            access,
            secret,
            region,
            bucket,
            key,
            t,
            e1,
        ),
        spec_presigned_url(m, access, secret, region, bucket, key, t, e2) == spec_url_head(
            access,
            region,
            bucket,
            key,
            t,
        ) + dec_of(e2) + spec_url_tail() + spec_signature(
            m,
            access,
            secret,
            region,
            bucket,
            key,
            t,
            e2,
        ),
{
}

} // verus!
