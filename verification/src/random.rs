//! The seedable random stream that drives level generation.

use rand::rngs::StdRng;
use rand::Rng;
use rand::SeedableRng;
use vstd::prelude::*;

verus! {

/// `rand`'s standard generator, as an opaque value.
#[verifier::external_type_specification]
#[verifier::external_body]
pub struct ExStdRng(rand::rngs::StdRng);

/// `rand`'s `SeedableRng::seed_from_u64` on `StdRng`. Nothing is claimed of the
/// generator that comes back.
#[verifier::external_body]
fn rng_from_seed(seed: u64) -> (rng: StdRng) {
    StdRng::seed_from_u64(seed)
}

/// `rand`'s `Rng::gen_range` on `i32`. It panics unless `low < high`; the
/// value it returns lies in the half-open range `[low, high)`.
#[verifier::external_body]
fn rng_gen_range(rng: &mut StdRng, low: i32, high: i32) -> (n: i32)
    requires
        low < high,
    ensures
        low <= n < high,
{
    rng.gen_range(low, high)
}

/// `rand`'s `Rng::gen` at type `bool`. Nothing is claimed of the value.
#[verifier::external_body]
fn rng_gen_bool(rng: &mut StdRng) -> (b: bool) {
    rng.gen()
}

/// `rand`'s `Rng::gen_ratio`. It panics when `denominator` is zero or
/// `numerator` exceeds it; a ratio of one always gives `true`, a ratio of zero
/// always gives `false`.
#[verifier::external_body]
fn rng_gen_ratio(rng: &mut StdRng, numerator: u32, denominator: u32) -> (b: bool)
    requires
        0 < denominator,
        numerator <= denominator,
    ensures
        numerator == denominator ==> b,
        numerator == 0 ==> !b,
{
    rng.gen_ratio(numerator, denominator)
}

/// An explicit stream of random numbers, started from a seed.
///
/// Contracts that consume the stream state what holds of every value it may
/// yield; which value comes is not modelled.
pub struct RandomSource {
    rng: StdRng,
}

impl RandomSource {
    /// A stream started from `seed`.
    pub fn from_seed(seed: u64) -> (source: RandomSource) {
        RandomSource { rng: rng_from_seed(seed) }
    }

    /// The next integer of the stream, uniform over `[low, high)`.
    pub fn range(&mut self, low: i32, high: i32) -> (n: i32)
        requires
            low < high,
        ensures
            low <= n < high,
    {
        rng_gen_range(&mut self.rng, low, high)
    }

    /// The next fair coin flip of the stream.
    pub fn coin(&mut self) -> (b: bool) {
        rng_gen_bool(&mut self.rng)
    }

    /// The next weighted coin flip of the stream: `true` with probability
    /// `numerator / denominator`.
    pub fn chance(&mut self, numerator: u32, denominator: u32) -> (b: bool)
        requires
            0 < denominator,
            numerator <= denominator,
        ensures
            numerator == denominator ==> b,
            numerator == 0 ==> !b,
    {
        rng_gen_ratio(&mut self.rng, numerator, denominator)
    }
}

} // verus!
