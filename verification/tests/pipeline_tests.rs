use sensor_batch_pipeline::codec::encode_readings;
use sensor_batch_pipeline::orchestrator::{object_key, run_batches, BatchResult, PipelineConfig};
use sensor_batch_pipeline::reading::generate_sensor_data;
use sensor_batch_pipeline::sign::{sign, Credentials, HttpMethod};
use sensor_batch_pipeline::upload::{upload, MemoryObjectStore, UploadOutcome, UploadStatus};

fn creds() -> Credentials {
    Credentials {
        access_key: b"AKIDEXAMPLE".to_vec(),
        secret_key: b"example-secret-key".to_vec(),
        region: b"us-west-2".to_vec(),
    }
}

fn config(batches: usize) -> PipelineConfig {
    PipelineConfig {
        credentials: creds(),
        bucket: b"sensor-archive".to_vec(),
        key_prefix: b"opensensor-test".to_vec(),
        device_class: b"esp32c6".to_vec(),
        artifact: b"sensor_readings".to_vec(),
        extension: b"col".to_vec(),
        num_batches: batches,
        rows_per_batch: 178,
        chunk_size: 512,
        expiry_secs: 900,
    }
}

#[test]
fn object_keys_are_stable_and_collision_free() {
    let cfg = config(3);
    let k0 = object_key(&cfg, 0);
    let k7 = object_key(&cfg, 7);
    assert_eq!(k0, b"opensensor-test/esp32c6/sensor_readings_000.col".to_vec());
    assert_eq!(k7, b"opensensor-test/esp32c6/sensor_readings_007.col".to_vec());
    let k123 = object_key(&cfg, 123);
    assert_eq!(k123, b"opensensor-test/esp32c6/sensor_readings_123.col".to_vec());
    assert_ne!(k0, k7);
}

fn signed(now: i64, expiry: i64) -> sensor_batch_pipeline::sign::SignedRequest {
    sign(
        &creds(),
        &b"sensor-archive".to_vec(),
        &b"pre/dev/file_000.col".to_vec(),
        HttpMethod::Put,
        expiry,
        now,
    )
    .unwrap()
}

#[test]
fn chunk_size_does_not_change_received_bytes() {
    let payload: Vec<u8> = (0..2000u32).map(|i| (i % 251) as u8).collect();
    let sizes = [1usize, 3, 7, 512, 1999, 2000, 5000];
    let mut stored: Vec<Vec<u8>> = Vec::new();
    for &c in &sizes {
        let mut store = MemoryObjectStore::new();
        let req = signed(100, 900);
        let o = upload(&mut store, &req, &payload, c, 100);
        assert!(o.is_success());
        assert_eq!(o.bytes_attempted, payload.len());
        assert_eq!(o.bytes_sent, payload.len());
        assert_eq!(store.objects.len(), 1);
        assert_eq!(store.objects[0].key, req.key);
        stored.push(store.objects[0].data.clone());
    }
    for d in &stored {
        assert_eq!(d, &payload, "received bytes are identical for every chunk size");
    }
}

#[test]
fn expired_request_is_rejected() {
    let payload = vec![1u8, 2, 3];
    let mut store = MemoryObjectStore::new();
    let req = signed(100, 900); // expires at instant 1000
    let o = upload(&mut store, &req, &payload, 2, 1001);
    assert!(!o.is_success());
    match &o.status {
        UploadStatus::Rejected(code, body) => {
            assert_eq!(*code, 403);
            assert_eq!(body, &b"Request has expired".to_vec());
        },
        other => panic!("expected rejection, got {other:?}"),
    }
    assert_eq!(o.bytes_sent, 0);
    assert!(store.objects.is_empty(), "nothing may be stored after a rejection");
    // at the expiry instant itself the request is still honored
    let mut store2 = MemoryObjectStore::new();
    let o2 = upload(&mut store2, &req, &payload, 2, 1000);
    assert!(o2.is_success());
}

#[test]
fn transport_failure_is_never_success() {
    let o = UploadOutcome {
        bytes_attempted: 10,
        bytes_sent: 4,
        status: UploadStatus::Transport,
    };
    assert!(!o.is_success());
}

#[test]
fn run_isolates_a_failing_batch() {
    // Three batches; the target is rigged to reject batch 2 (index 1)
    // with a 403. Batches 1 and 3 must still be attempted and succeed,
    // and the summary must say 2 of 3 with batch 2 identified by key.
    let cfg = config(3);
    let mut store = MemoryObjectStore::new();
    store.force_reject(object_key(&cfg, 1));
    let summary = run_batches(&cfg, &mut store, 1_733_270_400);

    assert_eq!(summary.batches_total, 3);
    assert_eq!(summary.batches_succeeded, 2);
    assert_eq!(summary.records.len(), 3);

    assert!(summary.records[0].succeeded());
    assert!(!summary.records[1].succeeded());
    assert!(summary.records[2].succeeded());
    assert_eq!(summary.records[1].key, object_key(&cfg, 1));
    match &summary.records[1].result {
        BatchResult::Uploaded(o) => match &o.status {
            UploadStatus::Rejected(code, _) => assert_eq!(*code, 403),
            other => panic!("expected a 403 rejection, got {other:?}"),
        },
        other => panic!("expected an attempted upload, got {other:?}"),
    }

    // the two accepted objects are exactly batches 1 and 3, in order
    assert_eq!(store.objects.len(), 2);
    assert_eq!(store.objects[0].key, object_key(&cfg, 0));
    assert_eq!(store.objects[1].key, object_key(&cfg, 2));
    let payload0 = encode_readings(&generate_sensor_data(0, 178)).bytes;
    let payload2 = encode_readings(&generate_sensor_data(2, 178)).bytes;
    assert_eq!(store.objects[0].data, payload0);
    assert_eq!(store.objects[1].data, payload2);
    assert_eq!(
        summary.bytes_uploaded,
        (payload0.len() + payload2.len()) as u128
    );
}

#[test]
fn run_with_broken_credentials_fails_every_batch_and_still_reports() {
    let mut cfg = config(3);
    cfg.credentials.secret_key = Vec::new();
    let mut store = MemoryObjectStore::new();
    let summary = run_batches(&cfg, &mut store, 1_733_270_400);
    assert_eq!(summary.batches_total, 3);
    assert_eq!(summary.batches_succeeded, 0);
    assert_eq!(summary.records.len(), 3);
    for rec in &summary.records {
        assert!(!rec.succeeded());
        assert!(matches!(rec.result, BatchResult::SignFailed(_)));
    }
    assert_eq!(summary.bytes_uploaded, 0);
    assert!(store.objects.is_empty());
}

#[test]
fn run_uploads_every_batch_when_nothing_fails() {
    let cfg = config(3);
    let mut store = MemoryObjectStore::new();
    let summary = run_batches(&cfg, &mut store, 1_733_270_400);
    assert_eq!(summary.batches_succeeded, 3);
    assert_eq!(store.objects.len(), 3);
    // batches are independent: rerunning appends three more objects
    let summary2 = run_batches(&cfg, &mut store, 1_733_270_400);
    assert_eq!(summary2.batches_succeeded, 3);
    assert_eq!(store.objects.len(), 6);
}
