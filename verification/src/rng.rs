//! The game's randomness source: the thread-local generator of the `rand`
//! crate, reached through two trusted declarations. Nothing is assumed of a
//! drawn value beyond its range, so everything proved about the engine holds
//! for every sequence of draws.

use vstd::prelude::*;

verus! {

#[verifier::external_type_specification]
#[verifier::external_body]
pub struct ExThreadRng(rand::rngs::ThreadRng);

/// Relies on rand::thread_rng: returns a handle to the thread-local random
/// number generator. Nothing is promised of it.
#[verifier::external_body]
pub(crate) fn fresh_rng() -> rand::rngs::ThreadRng {
    rand::thread_rng()
}

/// Relies on rand::Rng::gen_range, which returns a value uniformly drawn
/// from the given range and panics only when the range is empty. Which value
/// comes back is deliberately left open.
#[verifier::external_body]
pub(crate) fn pick_index(rng: &mut rand::rngs::ThreadRng, n: usize) -> (r: usize)
    requires
        1 <= n,
    ensures
        r < n,
{
    rand::Rng::gen_range(rng, 0..n)
}

} // verus!
