//! The compressor: tables, arithmetic coder, model, filter and the codec.

pub mod logistic;
pub mod tables;
pub mod coder;
pub mod filter;
pub mod model;
pub mod codec;
pub mod dmc;

pub use codec::{compress, decompress};
