use sensor_batch_pipeline::codec::{decode_readings, decode_rows, encode_readings, encode_rows};
use sensor_batch_pipeline::codec::{DecodeError, EncodeError};
use sensor_batch_pipeline::reading::{generate_sensor_data, SensorReading};
use sensor_batch_pipeline::schema::{sensor_schema, ColumnType, SchemaDefinition, ColumnDef};

fn sample_reading(seed: i64) -> SensorReading {
    SensorReading {
        timestamp: 1_733_270_400_000 + seed * 5000,
        temperature: 20_000_000 + seed,
        humidity: -45_000_000 + seed,
        pressure: 1_013_250_000,
        pm1_0: 5_000_000,
        pm2_5: 8_000_000,
        pm10: 12_000_000,
        gas_resistance: 50_000_000_000 + seed * 7,
        light: 100_000_000,
        noise: -35_000_000 - seed,
    }
}

#[test]
fn round_trip_preserves_every_field() {
    let rows: Vec<SensorReading> = (0..57).map(sample_reading).collect();
    let encoded = encode_readings(&rows);
    let decoded = decode_readings(&encoded.bytes).expect("own encoding must decode");
    assert_eq!(rows.len(), decoded.len());
    for (a, b) in rows.iter().zip(decoded.iter()) {
        assert_eq!(a, b);
    }
}

#[test]
fn round_trip_of_empty_batch() {
    let rows: Vec<SensorReading> = Vec::new();
    let encoded = encode_readings(&rows);
    let decoded = decode_readings(&encoded.bytes).expect("empty batch must decode");
    assert_eq!(decoded.len(), 0);
}

#[test]
fn round_trip_of_generated_batch() {
    let rows = generate_sensor_data(2, 178);
    let encoded = encode_readings(&rows);
    let decoded = decode_readings(&encoded.bytes).expect("generated batch must decode");
    assert_eq!(rows, decoded);
}

#[test]
fn round_trip_within_epsilon_on_float_view() {
    // Fixed-precision cells hold millionths, so the float view of a decoded
    // measurement is within 1e-6 of the encoded one.
    let rows = vec![sample_reading(3)];
    let encoded = encode_readings(&rows);
    let decoded = decode_readings(&encoded.bytes).unwrap();
    let before = rows[0].temperature as f64 / 1e6;
    let after = decoded[0].temperature as f64 / 1e6;
    assert!((before - after).abs() < 1e-6);
}

#[test]
fn columns_appear_in_schema_order() {
    // Two rows with distinct values per field: after decompression the
    // image must hold the columns contiguously, in exactly schema order.
    let r0 = SensorReading {
        timestamp: 1,
        temperature: 2,
        humidity: 3,
        pressure: 4,
        pm1_0: 5,
        pm2_5: 6,
        pm10: 7,
        gas_resistance: 8,
        light: 9,
        noise: 10,
    };
    let r1 = SensorReading {
        timestamp: 11,
        temperature: 12,
        humidity: 13,
        pressure: 14,
        pm1_0: 15,
        pm2_5: 16,
        pm10: 17,
        gas_resistance: 18,
        light: 19,
        noise: 20,
    };
    let encoded = encode_readings(&vec![r0, r1]);
    let img = lz4_flex::decompress_size_prepended(&encoded.bytes).expect("valid block");
    // magic, column count, one tag per column
    assert_eq!(&img[0..4], &[83u8, 66, 80, 49]);
    assert_eq!(img[4], 10);
    assert_eq!(&img[5..15], &[1u8, 2, 2, 2, 2, 2, 2, 2, 2, 2]);
    // row count, 8 bytes little endian
    assert_eq!(&img[15..23], &2u64.to_le_bytes());
    // cells, column-major: column j holds rows 0 and 1 in order
    for j in 0..10u64 {
        let off = 23 + (j as usize) * 16;
        let lo = u64::from_le_bytes(img[off..off + 8].try_into().unwrap());
        let hi = u64::from_le_bytes(img[off + 8..off + 16].try_into().unwrap());
        assert_eq!(lo, j + 1);
        assert_eq!(hi, j + 11);
    }
    assert_eq!(img.len(), 23 + 160);
}

#[test]
fn negative_cells_round_trip_two_complement() {
    let mut r = sample_reading(0);
    r.temperature = -40_000_000;
    r.noise = i64::MIN;
    r.light = i64::MAX;
    let encoded = encode_readings(&vec![r]);
    let decoded = decode_readings(&encoded.bytes).unwrap();
    assert_eq!(decoded[0].temperature, -40_000_000);
    assert_eq!(decoded[0].noise, i64::MIN);
    assert_eq!(decoded[0].light, i64::MAX);
}

#[test]
fn decode_rejects_garbage() {
    let garbage = vec![0u8, 1, 2, 3, 4, 5, 6, 7, 8, 9];
    assert!(matches!(decode_readings(&garbage), Err(DecodeError::Corrupt)));
}

#[test]
fn decode_rejects_wrong_schema() {
    // A batch encoded under the sensor schema must not decode under a
    // different column layout.
    let rows = vec![vec![1i64, 2], vec![3, 4]];
    let narrow = SchemaDefinition {
        cols: vec![
            ColumnDef { name: "a", ty: ColumnType::Int64 },
            ColumnDef { name: "b", ty: ColumnType::FixedMicro },
        ],
    };
    let encoded = encode_rows(&rows, &narrow).expect("matching shape encodes");
    assert!(matches!(decode_readings(&encoded.bytes), Err(DecodeError::Corrupt)));
    // while the same bytes decode fine under the layout they were written with
    let back = decode_rows(&encoded.bytes, &narrow).expect("same layout decodes");
    assert_eq!(back, rows);
}

#[test]
fn encode_rejects_row_shape_mismatch() {
    let schema = sensor_schema();
    let rows = vec![vec![1i64, 2, 3]];
    assert!(matches!(encode_rows(&rows, &schema), Err(EncodeError::SchemaMismatch)));
}

#[test]
fn sensor_schema_names_and_types() {
    let s = sensor_schema();
    let names: Vec<&str> = s.cols.iter().map(|c| c.name).collect();
    assert_eq!(
        names,
        vec![
            "timestamp",
            "temperature",
            "humidity",
            "pressure",
            "pm1_0",
            "pm2_5",
            "pm10",
            "gas_resistance",
            "light",
            "noise"
        ]
    );
    assert_eq!(s.cols[0].ty, ColumnType::Int64);
    for c in &s.cols[1..] {
        assert_eq!(c.ty, ColumnType::FixedMicro);
    }
}

#[test]
fn repetitive_batches_are_compressed() {
    // 100 identical rows: the uncompressed image holds 23 header bytes
    // plus 100 * 80 cell bytes; the codec must shrink that well below.
    let rows = vec![sample_reading(1); 100];
    let encoded = encode_readings(&rows);
    assert!(
        encoded.bytes.len() < (23 + 100 * 80) / 2,
        "compressed size was {}",
        encoded.bytes.len()
    );
    let decoded = decode_readings(&encoded.bytes).unwrap();
    assert_eq!(rows, decoded);
}

#[test]
fn generated_batch_matches_concrete_scenario() {
    // 178 rows, batch index 0, base timestamp 1733270400000, 5000 ms apart.
    let rows = generate_sensor_data(0, 178);
    assert_eq!(rows.len(), 178);
    assert_eq!(rows[0].timestamp, 1_733_270_400_000);
    assert_eq!(rows[177].timestamp, 1_733_271_285_000);
    assert_eq!(rows[0].temperature, 20_000_000);
    assert_eq!(rows[177].temperature, 23_540_000);
    assert!((rows[0].temperature as f64 / 1e6 - 20.0).abs() < 1e-6);
    assert!((rows[177].temperature as f64 / 1e6 - 23.54).abs() < 1e-6);
    // second batch starts 15 minutes later
    let next = generate_sensor_data(1, 178);
    assert_eq!(next[0].timestamp, 1_733_270_400_000 + 900_000);
}
