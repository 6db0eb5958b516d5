//! Trusted boundary to the `rand` crate: the seeded pseudo-random stream
//! that food placement draws from.

use vstd::prelude::*;

verus! {

/// Declares rand's `SmallRng` so a session can hold its generator in a
/// field; the type stays opaque, and nothing is assumed of its state.
#[verifier::external_type_specification]
#[verifier::external_body]
pub struct ExSmallRng(rand::rngs::SmallRng);

/// Relies on rand's `SmallRng::seed_from_u64`: builds a deterministic
/// pseudo-random generator from a 64-bit seed, and never panics.
#[verifier::external_body]
pub(crate) fn seed_rng(seed: u64) -> rand::rngs::SmallRng {
    <rand::rngs::SmallRng as rand::SeedableRng>::seed_from_u64(seed)
}

/// Relies on rand's `Rng::gen_range`: returns a uniform sample from
/// `0..bound`, and panics only on an empty range, which the precondition
/// rules out. Nothing more is assumed of the sample: callers must handle
/// every value in the range.
#[verifier::external_body]
pub(crate) fn rng_below(rng: &mut rand::rngs::SmallRng, bound: i32) -> (r: i32)
    requires
        bound >= 1,
    ensures
        0 <= r < bound,
{
    rand::Rng::gen_range(rng, 0..bound)
}

} // verus!
