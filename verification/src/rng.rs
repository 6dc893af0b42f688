//! The pseudo-random source that drives every nondeterministic choice of the
//! network simulator: duplication counts, insertion positions, and partial
//! drain lengths.

use vstd::prelude::*;

verus! {

/// A seeded source of pseudo-random numbers. The simulator draws all of its
/// nondeterminism from an implementation of this trait and from nothing else,
/// so a run is reproducible whenever the source is.
pub trait RandomSource {
    /// Draw a value from the non-empty half-open range `[lo, hi)`.
    fn gen_range(&mut self, lo: usize, hi: usize) -> (r: usize)
        requires
            lo < hi,
        ensures
            lo <= r < hi,
    ;
}

#[verifier::external_type_specification]
#[verifier::external_body]
pub struct ExStdRng(rand::rngs::StdRng);

/// Relies on rand's `SeedableRng::seed_from_u64`: builds a generator whose
/// state is a pure function of the 64-bit seed.
#[verifier::external_body]
fn std_rng_from_seed(seed: u64) -> rand::rngs::StdRng {
    <rand::rngs::StdRng as rand::SeedableRng>::seed_from_u64(seed)
}

/// Relies on rand's `Rng::gen_range`: a value drawn uniformly from the given
/// range, which must be non-empty (`gen_range` panics on an empty range).
#[verifier::external_body]
fn std_rng_gen_range(rng: &mut rand::rngs::StdRng, lo: usize, hi: usize) -> (r: usize)
    requires
        lo < hi,
    ensures
        lo <= r < hi,
{
    rand::Rng::gen_range(rng, lo..hi)
}

/// A random source backed by rand's standard generator, seeded explicitly so
/// that test runs are reproducible.
pub struct SeededRng {
    rng: rand::rngs::StdRng,
}

impl SeededRng {
    /// A generator whose state is derived from `seed` alone.
    pub fn new(seed: u64) -> SeededRng {
        SeededRng { rng: std_rng_from_seed(seed) }
    }
}

impl RandomSource for SeededRng {
    fn gen_range(&mut self, lo: usize, hi: usize) -> (r: usize) {
        std_rng_gen_range(&mut self.rng, lo, hi)
    }
}

} // verus!
