//! A seedable source of uniform integers, backed by rand's `StdRng`.
use vstd::prelude::*;

use rand::rngs::StdRng;

verus! {

#[verifier::external_type_specification]
#[verifier::external_body]
pub struct ExStdRng(StdRng);

/// Relies on rand's `SeedableRng::seed_from_u64` for `StdRng`: a generator
/// whose whole output is fixed by the seed. Nothing is stated of it.
#[verifier::external_body]
fn std_rng_from_seed(seed: u64) -> (r: StdRng) {
    <StdRng as rand::SeedableRng>::seed_from_u64(seed)
}

/// Relies on rand's `Rng::random_range` on an inclusive `i64` range: the
/// value lies within the range. It panics only on an empty range, which
/// `requires` leaves out.
#[verifier::external_body]
fn std_rng_range_inclusive(rng: &mut StdRng, lo: i64, hi: i64) -> (r: i64)
    requires
        lo <= hi,
    ensures
        lo <= r <= hi,
{
    rand::Rng::random_range(rng, lo..=hi)
}

/// A pseudo-random generator; two sources made from one seed give the same
/// draws in the same order.
pub struct RandomSource {
    rng: StdRng,
}

impl RandomSource {
    pub fn from_seed(seed: u64) -> (r: RandomSource) {
        RandomSource { rng: std_rng_from_seed(seed) }
    }

    /// A uniform draw from `lo..=hi`.
    pub fn uniform(&mut self, lo: i64, hi: i64) -> (r: i64)
        requires
            lo <= hi,
        ensures
            lo <= r <= hi,
    {
        std_rng_range_inclusive(&mut self.rng, lo, hi)
    }
}

} // verus!
