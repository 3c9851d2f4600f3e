//! A context-mixing lossless compressor: per-bit predictions from many
//! hashed context models, match models, layered mixers and APM stages drive
//! a binary arithmetic coder.

pub mod algorithm;
pub mod harness;
pub mod instrument;
pub mod memcost;
pub mod metrics;
pub mod telemetry;

pub use algorithm::{compress, decompress};
