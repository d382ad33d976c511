//! Random draws, from a seedable generator that callers own.

use rand::rngs::StdRng;
use rand::Rng;
use vstd::prelude::*;

verus! {

#[verifier::external_type_specification]
#[verifier::external_body]
pub struct ExStdRng(StdRng);

/// Relies on rand::Rng::gen_range: a value drawn from the half-open range
/// `lo..hi` (it panics on an empty range, which `requires` leaves out).
#[verifier::external_body]
pub(crate) fn roll(rng: &mut StdRng, lo: u64, hi: u64) -> (r: u64)
    requires
        lo < hi,
    ensures
        lo <= r < hi,
{
    rng.gen_range(lo..hi)
}

/// Relies on rand::Rng::gen_ratio: `true` with probability `num / den`,
/// always when `num == den` and never when `num == 0` (it panics when
/// `den == 0` or `num > den`, which `requires` leaves out).
#[verifier::external_body]
pub(crate) fn chance(rng: &mut StdRng, num: u32, den: u32) -> (r: bool)
    requires
        0 < den,
        num <= den,
    ensures
        num == den ==> r,
        num == 0 ==> !r,
{
    rng.gen_ratio(num, den)
}

} // verus!
