//! Drawing the hash seeds of a new filter from the thread's random generator.

use vstd::prelude::*;
use crate::params::K;

verus! {

/// The handle to `rand`'s thread-local generator, carried through opaquely.
#[verifier::external_type_specification]
#[verifier::external_body]
pub struct ExThreadRng(rand::rngs::ThreadRng);

/// Calls `rand::thread_rng`.
///
/// Trusted: nothing is claimed about the generator. The call takes no input;
/// it panics only where the operating system cannot supply entropy.
#[verifier::external_body]
pub(crate) fn thread_rng() -> rand::rngs::ThreadRng {
    rand::thread_rng()
}

/// Calls `rand::Rng::gen` for a `u32`.
///
/// Trusted: nothing is claimed about the number drawn, nor about the state
/// the generator is left in.
#[verifier::external_body]
pub(crate) fn next_u32(rng: &mut rand::rngs::ThreadRng) -> u32 {
    rand::Rng::gen(rng)
}

/// Draws one seed per hash function. The seeds are unconstrained: two calls
/// need not agree.
pub(crate) fn gen_seeds() -> [u32; K] {
    let mut rng = thread_rng();
    let mut seeds: [u32; K] = [0; K];
    let mut i: usize = 0;
    while i < K
        invariant
            i <= K,
        decreases K - i,
    {
        seeds[i] = next_u32(&mut rng);
        i += 1;
    }
    seeds
}

} // verus!
