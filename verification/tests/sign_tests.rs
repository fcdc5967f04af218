use sensor_batch_pipeline::sign::{
    civil_from_days, hmac_sha256, sign, Credentials, HttpMethod, SigningError,
};

fn creds() -> Credentials {
    Credentials {
        access_key: b"AKIDEXAMPLE".to_vec(),
        secret_key: b"wJalrXUtnFEMI".to_vec(),
        region: b"us-west-2".to_vec(),
    }
}

fn hex(bytes: &[u8]) -> String {
    bytes.iter().map(|b| format!("{:02x}", b)).collect()
}

#[test]
fn keyed_digest_matches_published_vectors() {
    // RFC 4231 test case 1
    let key = vec![0x0bu8; 20];
    let msg = b"Hi There".to_vec();
    assert_eq!(
        hex(&hmac_sha256(&key, &msg)),
        "b0344c61d8db38535ca8afceaf0bf12b881dc200c9833da726e9376c2e32cff7"
    );
    // RFC 4231 test case 2
    let key2 = b"Jefe".to_vec();
    let msg2 = b"what do ya want for nothing?".to_vec();
    assert_eq!(
        hex(&hmac_sha256(&key2, &msg2)),
        "5bdcc146bf60754e6a042426089575c75a003f089d2739839dec58b964ec3843"
    );
    // RFC 4231 test case 6: key longer than one block, so it is hashed first
    let key3 = vec![0xaau8; 131];
    let msg3 = b"Test Using Larger Than Block-Size Key - Hash Key First".to_vec();
    assert_eq!(
        hex(&hmac_sha256(&key3, &msg3)),
        "60e431591ee0b67f0d8a26aacbf5b77f8e0bc6213728c5140546040f0ee37f54"
    );
}

#[test]
fn civil_date_conversion_known_days() {
    assert_eq!(civil_from_days(0), (1970, 1, 1));
    assert_eq!(civil_from_days(364), (1970, 12, 31));
    assert_eq!(civil_from_days(365), (1971, 1, 1));
    assert_eq!(civil_from_days(790), (1972, 3, 1)); // leap year
    assert_eq!(civil_from_days(20061), (2024, 12, 4));
}

#[test]
fn sign_is_deterministic_for_fixed_instant() {
    let c = creds();
    let bucket = b"my-bucket".to_vec();
    let key = b"pre/dev/file_000.col".to_vec();
    let a = sign(&c, &bucket, &key, HttpMethod::Put, 900, 1_733_270_400).unwrap();
    let b = sign(&c, &bucket, &key, HttpMethod::Put, 900, 1_733_270_400).unwrap();
    assert_eq!(a.url, b.url);
    assert_eq!(a.expires_at, b.expires_at);
    // a different instant gives a different signature
    let d = sign(&c, &bucket, &key, HttpMethod::Put, 900, 1_733_270_401).unwrap();
    assert_ne!(a.url, d.url);
}

#[test]
fn signed_url_has_expected_shape() {
    let c = creds();
    let bucket = b"my-bucket".to_vec();
    let key = b"pre/dev/file_000.col".to_vec();
    // instant 0 renders as 19700101T000000Z in scope and date
    let sr = sign(&c, &bucket, &key, HttpMethod::Put, 900, 0).unwrap();
    let url = String::from_utf8(sr.url.clone()).unwrap();
    let expected_head = "https://my-bucket.s3.us-west-2.amazonaws.com/pre/dev/file_000.col\
?X-Amz-Algorithm=AWS4-HMAC-SHA256\
&X-Amz-Credential=AKIDEXAMPLE%2F19700101%2Fus-west-2%2Fs3%2Faws4_request\
&X-Amz-Date=19700101T000000Z\
&X-Amz-Expires=900\
&X-Amz-SignedHeaders=host\
&X-Amz-Signature=";
    assert!(url.starts_with(expected_head), "url was: {url}");
    let sig = &url[expected_head.len()..];
    assert_eq!(sig.len(), 64);
    assert!(sig.chars().all(|ch| ch.is_ascii_hexdigit() && !ch.is_ascii_uppercase()));
    assert_eq!(sr.expires_at, 900);
    assert_eq!(sr.bucket, bucket);
    assert_eq!(sr.key, key);
}

#[test]
fn varying_expiry_changes_only_expiry_and_signature() {
    let c = creds();
    let bucket = b"bkt".to_vec();
    let key = b"k".to_vec();
    let now = 1_733_270_400;
    let u1 = String::from_utf8(sign(&c, &bucket, &key, HttpMethod::Put, 900, now).unwrap().url)
        .unwrap();
    let u2 = String::from_utf8(sign(&c, &bucket, &key, HttpMethod::Put, 1800, now).unwrap().url)
        .unwrap();
    let marker = "&X-Amz-Expires=";
    let h1 = u1.split(marker).next().unwrap();
    let h2 = u2.split(marker).next().unwrap();
    assert_eq!(h1, h2, "everything before the expiry parameter is identical");
    let t1 = &u1[h1.len() + marker.len()..];
    let t2 = &u2[h2.len() + marker.len()..];
    let mid = "&X-Amz-SignedHeaders=host&X-Amz-Signature=";
    assert!(t1.starts_with(&format!("900{mid}")));
    assert!(t2.starts_with(&format!("1800{mid}")));
}

#[test]
fn sign_rejects_malformed_credentials() {
    let mut c = creds();
    c.access_key = Vec::new();
    let r = sign(&c, &b"bkt".to_vec(), &b"k".to_vec(), HttpMethod::Put, 900, 0);
    assert_eq!(r.unwrap_err(), SigningError::MalformedCredentials);

    let mut c2 = creds();
    c2.secret_key = Vec::new();
    let r2 = sign(&c2, &b"bkt".to_vec(), &b"k".to_vec(), HttpMethod::Put, 900, 0);
    assert_eq!(r2.unwrap_err(), SigningError::MalformedCredentials);
}

#[test]
fn sign_rejects_malformed_target() {
    let c = creds();
    let r = sign(&c, &Vec::new(), &b"k".to_vec(), HttpMethod::Put, 900, 0);
    assert_eq!(r.unwrap_err(), SigningError::MalformedTarget);
    let r2 = sign(&c, &b"Bad_Bucket".to_vec(), &b"k".to_vec(), HttpMethod::Put, 900, 0);
    assert_eq!(r2.unwrap_err(), SigningError::MalformedTarget);
    let r3 = sign(&c, &b"bkt".to_vec(), &b"bad key".to_vec(), HttpMethod::Put, 900, 0);
    assert_eq!(r3.unwrap_err(), SigningError::MalformedTarget);
}

#[test]
fn sign_rejects_bad_expiry() {
    let c = creds();
    let r = sign(&c, &b"bkt".to_vec(), &b"k".to_vec(), HttpMethod::Put, 0, 0);
    assert_eq!(r.unwrap_err(), SigningError::InvalidExpiry);
    let r2 = sign(&c, &b"bkt".to_vec(), &b"k".to_vec(), HttpMethod::Put, 604_801, 0);
    assert_eq!(r2.unwrap_err(), SigningError::InvalidExpiry);
    assert!(sign(&c, &b"bkt".to_vec(), &b"k".to_vec(), HttpMethod::Put, 604_800, 0).is_ok());
}

#[test]
fn get_and_put_sign_differently() {
    let c = creds();
    let bucket = b"bkt".to_vec();
    let key = b"k".to_vec();
    let p = sign(&c, &bucket, &key, HttpMethod::Put, 900, 0).unwrap();
    let g = sign(&c, &bucket, &key, HttpMethod::Get, 900, 0).unwrap();
    assert_ne!(p.url, g.url, "the method is part of the canonical request");
}
