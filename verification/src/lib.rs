//! Batch pipeline for time-series sensor readings: fixed-schema columnar
//! encoding with compression, presigned-request signing, size-bounded
//! chunked upload, and per-batch orchestration with failure isolation.
//!
//! Data flows strictly left to right per batch: rows are generated or
//! accepted, flattened into schema-ordered cells, encoded into a
//! compressed columnar buffer, addressed under a key that embeds the
//! batch index, authorized by a time-limited signed request, and streamed
//! to the target in bounded-size chunks. Batches are independent: one
//! failure never halts the rest.
pub mod bytes;
pub mod codec;
pub mod orchestrator;
pub mod reading;
pub mod schema;
pub mod sign;
pub mod upload;
