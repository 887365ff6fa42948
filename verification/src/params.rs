//! The fixed dimensions of the filter.

use vstd::prelude::*;

verus! {

/// Number of storage words in the bit array.
pub const WORD_COUNT: usize = 1;

/// Number of bits in one storage word.
pub const WORD_BITS: u32 = 32;

/// Number of hash functions, and of seeds.
pub const K: usize = 3;

/// Total number of bits in the filter.
pub const CAPACITY: u32 = WORD_BITS * (WORD_COUNT as u32);

} // verus!
