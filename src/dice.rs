use rand::rngs::StdRng;
use rand::Rng;
use rand::SeedableRng;
use vstd::prelude::*;

verus! {

/// rand's standard seedable generator, carried through opaquely.
#[verifier::external_type_specification]
#[verifier::external_body]
pub struct ExStdRng(StdRng);

/// Relies on rand's `SeedableRng::seed_from_u64` for `StdRng`: a generator
/// whose stream is fixed by the seed.
#[verifier::external_body]
fn seeded(seed: u64) -> StdRng {
    StdRng::seed_from_u64(seed)
}

/// Relies on rand's `Rng::gen_range` on an inclusive range: the value lies
/// within the range (it panics on an empty one, which `requires` leaves out).
#[verifier::external_body]
fn draw_inclusive(rng: &mut StdRng, lo: i32, hi: i32) -> (r: i32)
    requires
        lo <= hi,
    ensures
        lo <= r <= hi,
{
    rng.gen_range(lo..=hi)
}

/// Relies on rand's `Rng::gen_ratio`: true with chance `numerator` in
/// `denominator`, always true when the two are equal and always false when
/// `numerator` is zero (it panics on a zero denominator or a numerator above
/// the denominator, which `requires` leaves out).
#[verifier::external_body]
fn draw_ratio(rng: &mut StdRng, numerator: u32, denominator: u32) -> (r: bool)
    requires
        0 < denominator,
        numerator <= denominator,
    ensures
        numerator == denominator ==> r,
        numerator == 0 ==> !r,
{
    rng.gen_ratio(numerator, denominator)
}

/// The single randomness stream that every stochastic step draws from.
/// Two handles built from one seed hand out the same stream.
pub struct Dice {
    rng: StdRng,
}

impl Dice {
    pub fn from_seed(seed: u64) -> Dice {
        Dice { rng: seeded(seed) }
    }

    /// A value drawn uniformly from `lo..=hi`.
    pub fn range(&mut self, lo: i32, hi: i32) -> (r: i32)
        requires
            lo <= hi,
        ensures
            lo <= r <= hi,
    {
        draw_inclusive(&mut self.rng, lo, hi)
    }

    /// True with chance `numerator` in `denominator`.
    pub fn ratio(&mut self, numerator: u32, denominator: u32) -> (r: bool)
        requires
            0 < denominator,
            numerator <= denominator,
        ensures
            numerator == denominator ==> r,
            numerator == 0 ==> !r,
    {
        draw_ratio(&mut self.rng, numerator, denominator)
    }

    /// True with chance `percent` in a hundred; certain from a hundred up.
    pub fn percent(&mut self, percent: u32) -> (r: bool)
        ensures
            percent >= 100 ==> r,
            percent == 0 ==> !r,
    {
        let p: u32 = if percent > 100 { 100 } else { percent };
        draw_ratio(&mut self.rng, p, 100)
    }
}

} // verus!
