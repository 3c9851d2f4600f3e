//! Context-mixing predictor: multi-order adaptive counters and bit-history
//! state maps, six match models, two layers of context-selected logistic
//! mixers and a 16-bit APM/SSE chain.

pub mod hashing;
pub mod apm;
pub mod mixer;
pub mod slot;
pub mod matcher;
pub mod history;
pub mod follow;
pub mod contexts;
pub mod selectors;
pub mod cm;
