//! The seeded 32-bit hash that bit positions are derived from.
//!
//! The hash itself is the `murmur3` crate's; nothing about its value is proved
//! here. This module gives the value a name, so that the rest of the library
//! can say exactly which positions a key selects.

use vstd::prelude::*;

verus! {

/// The longest input, in bytes, that the hash accepts.
pub const MAX_INPUT_BYTES: usize = 0xffff_ffff;

/// The error type of `std::io`, carried through but never inspected.
#[verifier::external_type_specification]
#[verifier::external_body]
pub struct ExIoError(std::io::Error);

/// The outcome of `murmur3::murmur3_32` on an in-memory reader over `bytes`
/// with `seed`: `Some` of the hash, or `None` where the call gives an error.
pub uninterp spec fn murmur3_hash(bytes: Seq<u8>, seed: u32) -> Option<u32>;

/// Calls `murmur3::murmur3_32` on a `std::io::Cursor` over `bytes`.
///
/// Trusted: the outcome depends on `bytes` and `seed` alone, so it is the
/// named outcome [`murmur3_hash`]. No claim is made that the call succeeds,
/// nor about which hash or error it gives. `murmur3_32` counts the bytes it
/// has read in a `u32` with a plain addition, so longer inputs are left out.
#[verifier::external_body]
fn murmur3_32(bytes: &[u8], seed: u32) -> (outcome: Result<u32, std::io::Error>)
    requires
        bytes@.len() <= u32::MAX,
    ensures
        match outcome {
            Ok(hash) => murmur3_hash(bytes@, seed) == Some(hash),
            Err(_) => murmur3_hash(bytes@, seed) is None,
        },
{
    murmur3::murmur3_32(&mut std::io::Cursor::new(bytes), seed)
}

/// The hash of `bytes` under `seed`, or `None` where there is none: the input
/// is longer than `MAX_INPUT_BYTES`, or the hash computation gives an error.
pub open spec fn seeded_hash(bytes: Seq<u8>, seed: u32) -> Option<u32> {
    if bytes.len() <= MAX_INPUT_BYTES {
        murmur3_hash(bytes, seed)
    } else {
        None
    }
}

/// Hashes `bytes` under `seed`. Fails, with a message that describes why,
/// exactly where [`seeded_hash`] has no value.
pub fn hash_with_seed(bytes: &[u8], seed: u32) -> (outcome: Result<u32, String>)
    ensures
        match outcome {
            Ok(hash) => seeded_hash(bytes@, seed) == Some(hash),
            Err(_) => seeded_hash(bytes@, seed) is None,
        },
{
    if bytes.len() > MAX_INPUT_BYTES {
        return Err("input is too long to hash".to_string());
    }
    match murmur3_32(bytes, seed) {
        Ok(hash) => Ok(hash),
        Err(reason) => Err(reason.to_string()),
    }
}

} // verus!
