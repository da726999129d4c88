//! Pseudo-random source for stochastic sampling.
//!
//! The renderer draws sub-pixel jitter, scatter directions and the
//! reflect-or-refract coin from one explicitly threaded generator, so a run
//! is reproducible from its seed. The generator itself is `rand`'s `StdRng`
//! behind two trusted wrappers; every caller states only what holds of any
//! outcome, never which outcome comes.
use vstd::prelude::*;

verus! {

/// `rand::rngs::StdRng`, the crate's seedable standard generator, declared
/// so that it can sit in a field. Its state is opaque to the verifier.
#[verifier::external_type_specification]
#[verifier::external_body]
pub struct ExStdRng(rand::rngs::StdRng);

/// A seeded pseudo-random source.
pub struct Prng {
    pub inner: rand::rngs::StdRng,
}

impl Prng {
    /// Relies on rand's `SeedableRng::seed_from_u64`: builds a generator
    /// deterministically from the seed. Nothing is promised of its draws.
    #[verifier::external_body]
    pub fn from_seed(seed: u64) -> (r: Prng)
    {
        Prng { inner: <rand::rngs::StdRng as rand::SeedableRng>::seed_from_u64(seed) }
    }

    /// Relies on rand's `Rng::random_range` over `lo..hi`: returns a value
    /// of the half-open range and panics only when the range is empty,
    /// which the precondition rules out.
    #[verifier::external_body]
    pub fn next_bits(&mut self, lo: i64, hi: i64) -> (r: i64)
        requires
            lo < hi,
        ensures
            lo <= r < hi,
    {
        rand::Rng::random_range(&mut self.inner, lo..hi)
    }
}

} // verus!
