//! Corpus entries and their scoring.

pub mod corpus;
pub mod eval;
