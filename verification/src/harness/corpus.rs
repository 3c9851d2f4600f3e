//! A corpus file with the baseline sizes it is compared against.

use vstd::prelude::*;

verus! {

/// One corpus file with the baseline sizes it is compared against.
pub struct Entry {
    pub name: String,
    pub data: Vec<u8>,
    pub zstd22: Option<u64>,
    pub xz9e: Option<u64>,
}

} // verus!
