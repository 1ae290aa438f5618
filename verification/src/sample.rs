//! The rejection sampler for starting points.
//!
//! Candidate points are drawn uniformly from the square `[-2, 2] x [-2, 2]`
//! and the first one inside the disk of radius 2 is accepted; any point
//! outside that disk escapes on its first step and contributes nothing to
//! the density map.  The entropy comes from rand's `SmallRng` behind a small
//! trusted boundary; everything around the draws is verified.

use vstd::prelude::*;
use crate::fixed::{Complex, FIXED_ONE, ESCAPE_THRESHOLD, norm_sq, valid_point, norm_sq_exec};

verus! {

#[verifier::external_type_specification]
#[verifier::external_body]
pub struct ExSmallRng(rand::rngs::SmallRng);

/// Relies on rand::make_rng with rand::rngs::SmallRng: a generator freshly
/// seeded from the thread-local entropy source.  Nothing can be promised of
/// its draws.
#[verifier::external_body]
fn fresh_small_rng() -> rand::rngs::SmallRng {
    rand::make_rng()
}

/// Relies on rand_core::SeedableRng::seed_from_u64: a generator derived from
/// the given seed.  The algorithm behind it is documented as non-portable,
/// so nothing is promised of its draws beyond what each draw's own contract
/// states.
#[verifier::external_body]
fn seeded_small_rng(seed: u64) -> rand::rngs::SmallRng {
    <rand::rngs::SmallRng as rand::SeedableRng>::seed_from_u64(seed)
}

/// Relies on rand::RngExt::random_range over `lo..=hi`: a draw uniform over
/// that inclusive range, which panics only when the range is empty.
#[verifier::external_body]
fn draw_in_range(rng: &mut rand::rngs::SmallRng, lo: i64, hi: i64) -> (r: i64)
    requires
        lo <= hi,
    ensures
        lo <= r <= hi,
{
    rand::RngExt::random_range(rng, lo..=hi)
}

/// An owned source of accepted starting points: a pseudo-random generator
/// plus the verified rejection loop around it.
pub struct SampleSource {
    rng: rand::rngs::SmallRng,
}

/// A coordinate of a candidate point: at most 2.0 plane units in magnitude.
pub open spec fn sample_coord(x: int) -> bool {
    -(2 * FIXED_ONE as int) <= x <= 2 * FIXED_ONE as int
}

impl SampleSource {
    /// A source seeded from fresh entropy.
    pub fn new() -> SampleSource {
        SampleSource { rng: fresh_small_rng() }
    }

    /// A deterministically seeded source, for reproducible runs.
    pub fn from_seed(seed: u64) -> SampleSource {
        SampleSource { rng: seeded_small_rng(seed) }
    }

    /// Draws candidates uniformly from the square `[-2, 2] x [-2, 2]` until
    /// one lies within the disk of radius 2, and returns it.  The number of
    /// redraws is capped only to bound the loop; the chance of a uniform
    /// generator exhausting the cap is negligible beyond description, and the
    /// origin (which lies in the disk and iterates to nothing) then stands in.
    pub fn draw(&mut self) -> (c: Complex)
        ensures
            sample_coord(c.re as int),
            sample_coord(c.im as int),
            norm_sq(c.re as int, c.im as int) <= ESCAPE_THRESHOLD as int,
            valid_point(c),
    {
        let mut attempts: u64 = 0;
        while attempts < 1_000_000
            invariant
                true,
            decreases 1_000_000 - attempts,
        {
            let re = draw_in_range(&mut self.rng, -2 * FIXED_ONE, 2 * FIXED_ONE);
            let im = draw_in_range(&mut self.rng, -2 * FIXED_ONE, 2 * FIXED_ONE);
            let candidate = Complex { re, im };
            if norm_sq_exec(candidate) <= ESCAPE_THRESHOLD {
                return candidate;
            }
            attempts = attempts + 1;
        }
        Complex { re: 0, im: 0 }
    }
}

/// A fresh entropy-seeded source of starting points.
pub fn make() -> SampleSource {
    SampleSource::new()
}

} // verus!
