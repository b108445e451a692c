//! Random numbers, from the `rand` crate.

use vstd::prelude::*;
use rand::rngs::StdRng;
use rand::{Rng, SeedableRng};

verus! {

/// `rand::rngs::StdRng`, the seedable generator that the game draws from.
#[verifier::external_type_specification]
#[verifier::external_body]
pub struct ExStdRng(StdRng);

/// `StdRng::from_entropy` (rand's `SeedableRng`): a generator seeded from the
/// operating system. Nothing is stated of its state.
#[verifier::external_body]
pub(crate) fn rng_from_entropy() -> StdRng {
    StdRng::from_entropy()
}

/// `StdRng::seed_from_u64` (rand's `SeedableRng`): a generator seeded from
/// `seed`. Nothing is stated of its state.
#[verifier::external_body]
pub(crate) fn rng_from_seed(seed: u64) -> StdRng {
    StdRng::seed_from_u64(seed)
}

/// `Rng::gen_range` on `lo..hi` for `i32`: a value of the half-open range; it
/// panics on an empty range, which `requires` leaves out.
#[verifier::external_body]
pub(crate) fn range_i32(rng: &mut StdRng, lo: i32, hi: i32) -> (r: i32)
    requires
        lo < hi,
    ensures
        lo <= r < hi,
{
    rng.gen_range(lo..hi)
}

/// `Rng::gen_range` on `lo..=hi` for `i32`: a value of the closed range; it
/// panics on an empty range, which `requires` leaves out.
#[verifier::external_body]
pub(crate) fn range_incl_i32(rng: &mut StdRng, lo: i32, hi: i32) -> (r: i32)
    requires
        lo <= hi,
    ensures
        lo <= r <= hi,
{
    rng.gen_range(lo..=hi)
}

/// `Rng::gen_range` on `lo..hi` for `usize`: a value of the half-open range;
/// it panics on an empty range, which `requires` leaves out.
#[verifier::external_body]
pub(crate) fn range_usize(rng: &mut StdRng, lo: usize, hi: usize) -> (r: usize)
    requires
        lo < hi,
    ensures
        lo <= r < hi,
{
    rng.gen_range(lo..hi)
}

/// `Rng::gen_range` on `lo..hi` for `u8`: a value of the half-open range; it
/// panics on an empty range, which `requires` leaves out.
#[verifier::external_body]
pub(crate) fn range_u8(rng: &mut StdRng, lo: u8, hi: u8) -> (r: u8)
    requires
        lo < hi,
    ensures
        lo <= r < hi,
{
    rng.gen_range(lo..hi)
}

/// `Rng::gen_ratio`: `true` with probability `num / den`. Its documentation
/// guarantees `false` for a zero numerator and `true` when numerator and
/// denominator are equal; it panics on a zero denominator or a numerator above
/// it, which `requires` leaves out.
#[verifier::external_body]
pub(crate) fn chance(rng: &mut StdRng, num: u32, den: u32) -> (r: bool)
    requires
        0 < den,
        num <= den,
    ensures
        num == 0 ==> !r,
        num == den ==> r,
{
    rng.gen_ratio(num, den)
}

} // verus!
