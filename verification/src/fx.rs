//! Fixed-point arithmetic: signed 64-bit values carrying six decimal places.
//!
//! Every continuous quantity of the simulation (positions in pixels,
//! velocities in pixels per second, seconds, phases in radians, alpha
//! coverage in [0, 1]) is held as an `i64` scaled by `FX_ONE`.

use vstd::prelude::*;

verus! {

/// The fixed-point unit: the representation of 1.0.
pub const FX_ONE: i64 = 1_000_000;

/// Largest magnitude admitted as a factor of `fx_mul`; keeps the
/// intermediate product inside `i64`.
pub const FX_FACTOR_LIMIT: i64 = 1_000_000_000;

/// The fixed-point product truncated toward zero, exactly as the
/// executable `fx_mul` computes it.
pub open spec fn fx_mul_spec(a: int, b: int) -> int {
    if a * b >= 0 {
        (a * b) / (FX_ONE as int)
    } else {
        -((-(a * b)) / (FX_ONE as int))
    }
}

/// The fixed-point quotient `a / b` for non-negative `a` and positive `b`,
/// truncated toward zero, exactly as the executable `fx_div` computes it.
pub open spec fn fx_div_spec(a: int, b: int) -> int {
    (a * (FX_ONE as int)) / b
}

proof fn lemma_mul_bounds(a: int, b: int, lim_a: int, lim_b: int)
    requires
        -lim_a <= a <= lim_a,
        -lim_b <= b <= lim_b,
        0 <= lim_a,
        0 <= lim_b,
    ensures
        -(lim_a * lim_b) <= a * b <= lim_a * lim_b,
{
    assert(-(lim_a * lim_b) <= a * b <= lim_a * lim_b) by (nonlinear_arith)
        requires
            -lim_a <= a <= lim_a,
            -lim_b <= b <= lim_b,
            0 <= lim_a,
            0 <= lim_b,
    ;
}

/// Multiply two fixed-point values: `(a * b) / FX_ONE`, truncated toward zero.
pub fn fx_mul(a: i64, b: i64) -> (r: i64)
    requires
        -FX_FACTOR_LIMIT <= a <= FX_FACTOR_LIMIT,
        -FX_FACTOR_LIMIT <= b <= FX_FACTOR_LIMIT,
    ensures
        r == fx_mul_spec(a as int, b as int),
{
    proof {
        lemma_mul_bounds(a as int, b as int, FX_FACTOR_LIMIT as int, FX_FACTOR_LIMIT as int);
    }
    let p: i64 = a * b;
    if p >= 0 {
        ((p as u64) / (FX_ONE as u64)) as i64
    } else {
        let q: u64 = ((-p) as u64) / (FX_ONE as u64);
        -(q as i64)
    }
}

/// Multiply a fixed-point value by a frame delta: the same product as
/// `fx_mul`, with a wider left factor admitted because the delta is
/// bounded by the largest frame step.
pub fn fx_mul_dt(a: i64, dt: i64) -> (r: i64)
    requires
        -100_000_000_000 <= a <= 100_000_000_000,
        0 <= dt <= 10_000_000,
    ensures
        r == fx_mul_spec(a as int, dt as int),
{
    proof {
        lemma_mul_bounds(a as int, dt as int, 100_000_000_000, 10_000_000);
    }
    let p: i64 = a * dt;
    if p >= 0 {
        ((p as u64) / (FX_ONE as u64)) as i64
    } else {
        let q: u64 = ((-p) as u64) / (FX_ONE as u64);
        -(q as i64)
    }
}

/// Magnitude bound for a fixed-point product, from bounds on the factors.
pub proof fn lemma_fx_mul_bound(a: int, b: int, la: int, lb: int)
    requires
        -la <= a <= la,
        -lb <= b <= lb,
        0 <= la,
        0 <= lb,
    ensures
        -((la * lb) / (FX_ONE as int)) <= fx_mul_spec(a, b) <= (la * lb) / (FX_ONE as int),
{
    assert(-((la * lb) / (FX_ONE as int)) <= fx_mul_spec(a, b) <= (la * lb) / (FX_ONE as int))
        by (nonlinear_arith)
        requires
            -la <= a <= la,
            -lb <= b <= lb,
            0 <= la,
            0 <= lb,
    ;
}

/// A product of non-negative factors at most one never grows its left
/// factor: the damping step only lowers a speed.
pub proof fn lemma_fx_mul_shrinks(a: int, b: int)
    requires
        0 <= a,
        0 <= b <= FX_ONE,
    ensures
        0 <= fx_mul_spec(a, b) <= a,
{
    assert(0 <= (a * b) / (FX_ONE as int) <= a) by (nonlinear_arith)
        requires
            0 <= a,
            0 <= b <= FX_ONE,
    ;
}

/// A zero factor gives a zero product.
pub proof fn lemma_fx_mul_zero(b: int)
    ensures
        fx_mul_spec(0, b) == 0,
{
    assert((0 * b) / (FX_ONE as int) == 0) by (nonlinear_arith);
}

/// A product of non-negative factors is non-negative.
pub proof fn lemma_fx_mul_nonneg(a: int, b: int)
    requires
        0 <= a,
        0 <= b,
    ensures
        0 <= fx_mul_spec(a, b),
{
    assert(0 <= (a * b) / (FX_ONE as int)) by (nonlinear_arith)
        requires
            0 <= a,
            0 <= b,
    ;
}

/// The whole-pixel coordinate of a fixed-point coordinate, truncated
/// toward zero.
pub open spec fn fx_to_px_spec(a: int) -> int {
    if a >= 0 {
        a / (FX_ONE as int)
    } else {
        -((-a) / (FX_ONE as int))
    }
}

pub fn fx_to_px(a: i64) -> (r: i64)
    requires
        -1_000_000_000_000_000 <= a <= 1_000_000_000_000_000,
    ensures
        r == fx_to_px_spec(a as int),
{
    if a >= 0 {
        ((a as u64) / (FX_ONE as u64)) as i64
    } else {
        let q: u64 = ((-a) as u64) / (FX_ONE as u64);
        -(q as i64)
    }
}

/// The integer square root as a mathematical function: the unique
/// non-negative `r` with `r * r <= n < (r + 1) * (r + 1)`.
pub open spec fn sqrt_floor(n: int) -> int {
    choose|r: int| 0 <= r && #[trigger] (r * r) <= n && n < (r + 1) * (r + 1)
}

/// Any root with the square-root property is the square root: it is
/// unique.
pub proof fn lemma_sqrt_floor_unique(n: int, r: int)
    requires
        0 <= r,
        r * r <= n,
        n < (r + 1) * (r + 1),
    ensures
        r == sqrt_floor(n),
{
    assert(0 <= r && r * r <= n && n < (r + 1) * (r + 1));
    let c = sqrt_floor(n);
    assert(0 <= c && c * c <= n && n < (c + 1) * (c + 1));
    if c < r {
        assert((c + 1) * (c + 1) <= r * r) by (nonlinear_arith)
            requires
                0 <= c,
                c < r,
        ;
    } else if r < c {
        assert((r + 1) * (r + 1) <= c * c) by (nonlinear_arith)
            requires
                0 <= r,
                r < c,
        ;
    }
}

/// The integer square root: the largest `r` with `r * r <= n`.
pub fn isqrt(n: u64) -> (r: u64)
    requires
        n < 4_000_000_000_000_000_000,
    ensures
        r * r <= n < (r + 1) * (r + 1),
        r == sqrt_floor(n as int),
{
    let mut lo: u64 = 0;
    let mut hi: u64 = 2_000_000_000;
    while lo + 1 < hi
        invariant
            lo < hi <= 2_000_000_000,
            lo * lo <= n,
            n < hi * hi,
        decreases hi - lo,
    {
        let mid: u64 = lo + (hi - lo) / 2;
        proof {
            assert(mid * mid < 4_000_000_000_000_000_000) by (nonlinear_arith)
                requires
                    mid < 2_000_000_000,
            ;
        }
        if mid * mid <= n {
            lo = mid;
        } else {
            hi = mid;
        }
    }
    proof {
        lemma_sqrt_floor_unique(n as int, lo as int);
    }
    lo
}

/// Divide two fixed-point values: `(a * FX_ONE) / b`, for `a >= 0`, `b > 0`.
pub fn fx_div(a: i64, b: i64) -> (r: i64)
    requires
        0 <= a <= 1_000_000_000_000,
        1 <= b,
    ensures
        r == fx_div_spec(a as int, b as int),
        0 <= r,
{
    let p: i64 = a * FX_ONE;
    ((p as u64) / (b as u64)) as i64
}

} // verus!
