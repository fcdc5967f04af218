[package]
name = "sensor_batch_pipeline"
version = "0.1.0"
edition = "2021"
publish = false

[dependencies]
sha2 = "*"
lz4_flex = "*"
