//! Fixed-point scalars.
//!
//! Every length, coordinate and duration in this crate is a whole number of
//! micro-units: `ONE` of them make one world unit (or one second).  Division
//! rounds toward zero, so that a quantity and its negation always round to
//! negations of each other.

use vstd::prelude::*;

verus! {

/// The number of stored units in one world unit.
pub const ONE: i64 = 1_000_000;

/// The world is the square of coordinates between `-WORLD_LIMIT` and
/// `WORLD_LIMIT` on both axes (one million world units each way).
pub const WORLD_LIMIT: i64 = 1_000_000_000_000;

/// The largest factor by which a displacement may be scaled before dividing.
pub const SCALE_LIMIT: i128 = 1_000_000_000_000_000_000_000_000;

/// The largest coordinate of a scaled displacement: a difference of two
/// coordinates of the world times `SCALE_LIMIT`.
pub const STEP_LIMIT: i128 = 2_000_000_000_000_000_000_000_000_000_000_000_000;

/// Quotient of `a` by a positive `b`, rounded toward zero.
pub open spec fn trunc_div(a: int, b: int) -> int
    recommends
        b > 0,
{
    if a >= 0 {
        a / b
    } else {
        -((-a) / b)
    }
}

/// The coordinate of the world nearest to `v`.
pub open spec fn clamp_coord(v: int) -> int {
    if v < -WORLD_LIMIT {
        -(WORLD_LIMIT as int)
    } else if v > WORLD_LIMIT {
        WORLD_LIMIT as int
    } else {
        v
    }
}

/// `r` is the square root of `n`, rounded down.
pub open spec fn is_floor_sqrt(n: int, r: int) -> bool {
    0 <= r && r * r <= n && n < (r + 1) * (r + 1)
}

/// The square root of a non-negative `n`, rounded down.
pub open spec fn floor_sqrt(n: int) -> int
    recommends
        n >= 0,
{
    choose|r: int| is_floor_sqrt(n, r)
}

/// Squaring is monotone on the non-negative integers.
pub proof fn lemma_square_monotone(a: int, b: int)
    requires
        0 <= a <= b,
    ensures
        a * a <= b * b,
{
    assert(a * a <= b * b) by (nonlinear_arith)
        requires
            0 <= a <= b,
    ;
}

/// At most one number is the rounded-down square root of `n`.
pub proof fn lemma_floor_sqrt_unique(n: int, r: int, s: int)
    requires
        is_floor_sqrt(n, r),
        is_floor_sqrt(n, s),
    ensures
        r == s,
{
    if r < s {
        lemma_square_monotone(r + 1, s);
    }
    if s < r {
        lemma_square_monotone(s + 1, r);
    }
}

/// Every non-negative number has a rounded-down square root.
pub proof fn lemma_floor_sqrt_exists(n: int)
    requires
        n >= 0,
    ensures
        is_floor_sqrt(n, floor_sqrt(n)),
    decreases n,
{
    if n == 0 {
        assert(is_floor_sqrt(0, 0));
    } else {
        lemma_floor_sqrt_exists(n - 1);
        let r = floor_sqrt(n - 1);
        if n < (r + 1) * (r + 1) {
            assert(is_floor_sqrt(n, r));
        } else {
            assert((r + 2) * (r + 2) == (r + 1) * (r + 1) + 2 * r + 3) by (nonlinear_arith);
            assert(is_floor_sqrt(n, r + 1));
        }
    }
}

/// A number with the defining property is the rounded-down square root.
pub proof fn lemma_floor_sqrt_is(n: int, r: int)
    requires
        is_floor_sqrt(n, r),
    ensures
        floor_sqrt(n) == r,
{
    lemma_floor_sqrt_unique(n, r, floor_sqrt(n));
}

/// The rounded-down root stays below `bound` exactly when `n` stays below
/// the square of `bound`.
pub proof fn lemma_floor_sqrt_below(n: int, bound: int)
    requires
        n >= 0,
        bound >= 0,
    ensures
        floor_sqrt(n) < bound <==> n < bound * bound,
        floor_sqrt(n) >= 0,
{
    lemma_floor_sqrt_exists(n);
    let r = floor_sqrt(n);
    if r < bound {
        lemma_square_monotone(r + 1, bound);
    } else {
        lemma_square_monotone(bound, r);
    }
}

/// Rounding toward zero commutes with negation.
pub proof fn lemma_trunc_div_neg(a: int, b: int)
    requires
        b > 0,
    ensures
        trunc_div(-a, b) == -trunc_div(a, b),
{
    if a == 0 {
        assert(0int / b == 0) by (nonlinear_arith)
            requires
                b > 0,
        ;
    }
}

/// A quotient rounded toward zero is no larger in magnitude than the dividend.
pub proof fn lemma_trunc_div_bound(a: int, b: int, m: int)
    requires
        b > 0,
        -m <= a <= m,
    ensures
        -m <= trunc_div(a, b) <= m,
{
    if a >= 0 {
        assert(0 <= a / b <= a) by (nonlinear_arith)
            requires
                a >= 0,
                b > 0,
        ;
    } else {
        let p = -a;
        assert(0 <= p / b <= p) by (nonlinear_arith)
            requires
                p >= 0,
                b > 0,
        ;
    }
}

/// A quotient rounded toward zero, times the divisor, is less than one
/// divisor away from the dividend.
pub proof fn lemma_trunc_div_error(a: int, b: int)
    requires
        b > 0,
    ensures
        -b < trunc_div(a, b) * b - a < b,
{
    if a >= 0 {
        vstd::arithmetic::div_mod::lemma_fundamental_div_mod(a, b);
        vstd::arithmetic::div_mod::lemma_mod_bound(a, b);
        assert(b * (a / b) == (a / b) * b) by (nonlinear_arith);
    } else {
        let p = -a;
        vstd::arithmetic::div_mod::lemma_fundamental_div_mod(p, b);
        vstd::arithmetic::div_mod::lemma_mod_bound(p, b);
        assert(b * (p / b) == (p / b) * b) by (nonlinear_arith);
        assert((-(p / b)) * b == -((p / b) * b)) by (nonlinear_arith);
    }
}

/// Quotient of `a` by `b`, rounded toward zero.
pub fn div_toward_zero(a: i128, b: i128) -> (q: i128)
    requires
        b > 0,
    ensures
        q == trunc_div(a as int, b as int),
{
    a / b
}

/// Square root of `n`, rounded down.
pub fn isqrt(n: u128) -> (r: u64)
    ensures
        r == floor_sqrt(n as int),
        is_floor_sqrt(n as int, r as int),
{
    let mut lo: u128 = 0;
    let mut hi: u128 = 0x1_0000_0000_0000_0000;
    assert(0x1_0000_0000_0000_0000int * 0x1_0000_0000_0000_0000int > u128::MAX);
    while hi - lo > 1
        invariant
            lo < hi <= 0x1_0000_0000_0000_0000,
            lo * lo <= n,
            n < hi * hi,
        decreases hi - lo,
    {
        let mid: u128 = lo + (hi - lo) / 2;
        assert(mid * mid <= 0xffff_ffff_ffff_ffffint * 0xffff_ffff_ffff_ffffint) by (nonlinear_arith)
            requires
                0 <= mid <= 0xffff_ffff_ffff_ffffint,
        ;
        assert(0xffff_ffff_ffff_ffffint * 0xffff_ffff_ffff_ffffint <= u128::MAX);
        if mid * mid <= n {
            lo = mid;
        } else {
            hi = mid;
        }
    }
    proof {
        assert(hi == lo + 1);
        lemma_floor_sqrt_is(n as int, lo as int);
    }
    lo as u64
}

/// The coordinate of the world nearest to `v`.
pub fn clamp_to_world(v: i128) -> (r: i64)
    ensures
        r == clamp_coord(v as int),
        -WORLD_LIMIT <= r <= WORLD_LIMIT,
{
    if v < -(WORLD_LIMIT as i128) {
        -WORLD_LIMIT
    } else if v > WORLD_LIMIT as i128 {
        WORLD_LIMIT
    } else {
        v as i64
    }
}

} // verus!
