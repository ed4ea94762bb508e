//! The random-number source of the engine, owned and passed explicitly.
use rand::rngs::StdRng;
use rand::Rng;
use rand::SeedableRng;
use vstd::prelude::*;

verus! {

#[verifier::external_type_specification]
#[verifier::external_body]
pub struct ExStdRng(StdRng);

/// Relies on rand's `SeedableRng::seed_from_u64`: builds a generator whose
/// stream depends on the seed alone.
#[verifier::external_body]
fn std_rng_from_seed(seed: u64) -> StdRng {
    StdRng::seed_from_u64(seed)
}

/// Relies on rand's `Rng::gen_range` over `lo..hi`: a value in that half-open
/// range (it panics on an empty range, which `requires` leaves out).
#[verifier::external_body]
fn std_rng_below(rng: &mut StdRng, lo: usize, hi: usize) -> (r: usize)
    requires
        lo < hi,
    ensures
        lo <= r < hi,
{
    rng.gen_range(lo..hi)
}

/// A seeded pseudo-random stream. The same seed gives the same stream, so a
/// game can be replayed.
pub struct GameRng {
    inner: StdRng,
}

impl GameRng {
    /// A stream determined by `seed`.
    pub fn from_seed(seed: u64) -> GameRng {
        GameRng { inner: std_rng_from_seed(seed) }
    }

    /// A value drawn from the half-open range `lo..hi`.
    pub fn below(&mut self, lo: usize, hi: usize) -> (r: usize)
        requires
            lo < hi,
        ensures
            lo <= r < hi,
    {
        std_rng_below(&mut self.inner, lo, hi)
    }

    /// A throw of a six-sided die.
    pub fn die(&mut self) -> (r: u8)
        ensures
            1 <= r <= 6,
    {
        let v = self.below(1, 7);
        v as u8
    }
}

} // verus!
