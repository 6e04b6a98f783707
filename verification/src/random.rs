//! The source of the random numbers that place agents and break ties.

use crate::fixed::UNIT;
use rand::rngs::StdRng;
use rand::Rng;
use rand::SeedableRng;
use vstd::prelude::*;

verus! {

/// `rand::rngs::StdRng`, the standard generator of the `rand` crate. Its
/// state is opaque here.
#[verifier::external_type_specification]
#[verifier::external_body]
pub struct ExStdRng(rand::rngs::StdRng);

/// Calls `rand::SeedableRng::seed_from_u64` for `rand::rngs::StdRng`, which
/// makes a generator from a seed of 64 bits. Nothing is claimed of the
/// generator.
#[verifier::external_body]
fn generator_from_seed(seed: u64) -> (rng: StdRng) {
    StdRng::seed_from_u64(seed)
}

/// Calls `rand::Rng::gen_range`, which returns a value of the range from
/// `low` inclusive to `high` exclusive and panics unless `low < high`. Only
/// the range is claimed, not which value of it comes.
#[verifier::external_body]
fn generate_range(rng: &mut StdRng, low: i64, high: i64) -> (r: i64)
    requires
        low < high,
    ensures
        low <= r < high,
{
    rng.gen_range(low, high)
}

/// A stream of uniformly distributed numbers.
pub struct RandomSource {
    rng: StdRng,
}

impl RandomSource {
    /// A source made from a seed. Two sources made from the same seed by the
    /// same build give the same numbers; no contract says so.
    pub fn seeded(seed: u64) -> (source: RandomSource) {
        RandomSource { rng: generator_from_seed(seed) }
    }

    /// The next number, at least `low` and less than `high`.
    pub fn range(&mut self, low: i64, high: i64) -> (r: i64)
        requires
            low < high,
        ensures
            low <= r < high,
    {
        generate_range(&mut self.rng, low, high)
    }

    /// The next number of the unit interval, at least zero and less than one,
    /// in millionths.
    pub fn sample(&mut self) -> (r: i64)
        ensures
            0 <= r < UNIT,
    {
        generate_range(&mut self.rng, 0, UNIT)
    }
}

} // verus!
