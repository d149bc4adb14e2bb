//! The randomness source: uniform samples drawn through the `rand` crate.
//!
//! One trusted wrapper draws a uniform integer below a bound; everything
//! else (ranges, chance tests) is derived from it in verified code.

use vstd::prelude::*;
use crate::fx::FX_ONE;

verus! {

/// Relies on `rand::Rng::gen_range` over `rand::thread_rng()`: for the
/// non-empty range `0..n` it returns a uniform sample below `n` and does
/// not panic.
#[verifier::external_body]
fn random_below(n: u64) -> (r: u64)
    requires
        1 <= n,
    ensures
        r < n,
{
    rand::Rng::gen_range(&mut rand::thread_rng(), 0..n)
}

/// A uniform fixed-point sample in the half-open range `[lo, hi)`.
pub fn random_in_range(lo: i64, hi: i64) -> (r: i64)
    requires
        -1_000_000_000_000 <= lo < hi <= 1_000_000_000_000,
    ensures
        lo <= r < hi,
{
    let span: i64 = hi - lo;
    let s: u64 = random_below(span as u64);
    lo + (s as i64)
}

/// A uniform sample from the inclusive range `[lo, hi]` of small integers.
pub fn random_in_range_inclusive(lo: u32, hi: u32) -> (r: u32)
    requires
        lo <= hi,
        hi < 0xffff_ffff,
    ensures
        lo <= r <= hi,
{
    let s: u64 = random_below((hi - lo) as u64 + 1);
    lo + (s as u32)
}

/// True with probability `p` (a fixed-point fraction of one, clamped to
/// `[0, 1]`): the spawn-policy and twinkle-assignment coin flip. An
/// impossible chance never fires and a certain one always does.
pub fn random_chance(p: i64) -> (r: bool)
    ensures
        p <= 0 ==> r == false,
        p >= FX_ONE ==> r == true,
{
    if p <= 0 {
        false
    } else if p >= FX_ONE {
        true
    } else {
        let s: u64 = random_below(FX_ONE as u64);
        s < (p as u64)
    }
}

} // verus!
