//! Saturating fixed-point scalar arithmetic.
//!
//! A scalar is an `i64` holding a real quantity times `SCALE`; every
//! operation rounds toward negative infinity and saturates at the `i64`
//! range, so the physics routines built on top are total functions.

use vstd::prelude::*;

verus! {

/// Number of raw fixed-point units in one simulation unit: an `i64`
/// scalar stores a real quantity as a multiple of `1 / SCALE`.
pub const SCALE: i64 = 65536;

/// Clamp a mathematical integer into the `i64` range.
pub open spec fn sat64(x: int) -> int {
    if x > i64::MAX as int {
        i64::MAX as int
    } else if x < i64::MIN as int {
        i64::MIN as int
    } else {
        x
    }
}

/// Saturating fixed-point sum.
pub open spec fn fp_add_spec(a: int, b: int) -> int {
    sat64(a + b)
}

/// Saturating fixed-point difference.
pub open spec fn fp_sub_spec(a: int, b: int) -> int {
    sat64(a - b)
}

/// Fixed-point product: `(a * b) / SCALE`, rounded toward negative
/// infinity and saturated.
pub open spec fn fp_mul_spec(a: int, b: int) -> int {
    sat64((a * b) / (SCALE as int))
}

/// Fixed-point quotient: `(a * SCALE) / b`, rounded toward negative
/// infinity and saturated. Defined for positive `b` only.
pub open spec fn fp_div_spec(a: int, b: int) -> int {
    sat64((a * (SCALE as int)) / b)
}

/// Half of a scalar, rounded toward negative infinity.
pub open spec fn fp_half_spec(a: int) -> int {
    a / 2
}

/// Quotient of `-m` by `d` under Euclidean division, written in terms of
/// the ceiling of `m / d`, which the unsigned exec division can compute.
proof fn lemma_floor_div_neg(m: int, d: int)
    requires
        1 <= d,
        1 <= m,
    ensures
        (-m) / d == -((m + d - 1) / d),
{
    let q: int = m / d;
    let r: int = m % d;
    vstd::arithmetic::div_mod::lemma_fundamental_div_mod(m, d);
    vstd::arithmetic::div_mod::lemma_mod_pos_bound(m, d);
    if r == 0 {
        assert(m + d - 1 == d * q + (d - 1)) by (nonlinear_arith)
            requires
                m == d * q + r,
                r == 0,
        ;
        vstd::arithmetic::div_mod::lemma_fundamental_div_mod_converse(m + d - 1, d, q, d - 1);
        assert(-m == d * (-q) + 0) by (nonlinear_arith)
            requires
                m == d * q + r,
                r == 0,
        ;
        vstd::arithmetic::div_mod::lemma_fundamental_div_mod_converse(-m, d, -q, 0);
    } else {
        assert(m + d - 1 == d * (q + 1) + (r - 1)) by (nonlinear_arith)
            requires
                m == d * q + r,
        ;
        vstd::arithmetic::div_mod::lemma_fundamental_div_mod_converse(m + d - 1, d, q + 1, r - 1);
        assert(-m == d * (-(q + 1)) + (d - r)) by (nonlinear_arith)
            requires
                m == d * q + r,
        ;
        vstd::arithmetic::div_mod::lemma_fundamental_div_mod_converse(-m, d, -(q + 1), d - r);
    }
}

/// Quotient of `n` by `d`, rounded toward negative infinity, computed
/// with unsigned division and an explicit sign case.
fn floor_div_i128(n: i128, d: i128) -> (q: i128)
    requires
        1 <= d <= i64::MAX as int,
        n > i128::MIN as int,
    ensures
        q as int == n as int / d as int,
{
    if n >= 0 {
        let q0: u128 = (n as u128) / (d as u128);
        proof {
            vstd::arithmetic::div_mod::lemma_div_pos_is_pos(n as int, d as int);
            vstd::arithmetic::div_mod::lemma_div_is_ordered_by_denominator(n as int, 1, d as int);
        }
        q0 as i128
    } else {
        let m: u128 = (-n) as u128;
        let dd: u128 = d as u128;
        let q0: u128 = (m + (dd - 1)) / dd;
        proof {
            lemma_floor_div_neg(m as int, d as int);
            assert((m as int + (d as int - 1)) / (d as int) <= m as int) by (nonlinear_arith)
                requires
                    1 <= d as int,
                    1 <= m as int,
            ;
            vstd::arithmetic::div_mod::lemma_div_pos_is_pos(m as int + (d as int - 1), d as int);
        }
        -(q0 as i128)
    }
}

/// Clamp an `i128` intermediate into the `i64` range.
fn clamp_i128(x: i128) -> (r: i64)
    ensures
        r as int == sat64(x as int),
{
    if x > i64::MAX as i128 {
        i64::MAX
    } else if x < i64::MIN as i128 {
        i64::MIN
    } else {
        x as i64
    }
}

/// Saturating addition of two scalars.
pub fn fp_add(a: i64, b: i64) -> (r: i64)
    ensures
        r as int == fp_add_spec(a as int, b as int),
{
    let s: i128 = (a as i128) + (b as i128);
    clamp_i128(s)
}

/// Saturating subtraction of two scalars.
pub fn fp_sub(a: i64, b: i64) -> (r: i64)
    ensures
        r as int == fp_sub_spec(a as int, b as int),
{
    let s: i128 = (a as i128) - (b as i128);
    clamp_i128(s)
}

/// Saturating fixed-point multiplication.
pub fn fp_mul(a: i64, b: i64) -> (r: i64)
    ensures
        r as int == fp_mul_spec(a as int, b as int),
{
    proof {
        let p: int = (a as int) * (b as int);
        assert((i128::MIN as int) < p && p <= (i128::MAX as int)) by (nonlinear_arith)
            requires
                p == (a as int) * (b as int),
                i64::MIN as int <= a as int <= i64::MAX as int,
                i64::MIN as int <= b as int <= i64::MAX as int,
        ;
    }
    let p: i128 = (a as i128) * (b as i128);
    let q: i128 = floor_div_i128(p, SCALE as i128);
    clamp_i128(q)
}

/// Saturating fixed-point division by a positive scalar.
pub fn fp_div(a: i64, b: i64) -> (r: i64)
    requires
        1 <= b,
    ensures
        r as int == fp_div_spec(a as int, b as int),
{
    proof {
        let p: int = (a as int) * (SCALE as int);
        assert((i128::MIN as int) < p && p <= (i128::MAX as int)) by (nonlinear_arith)
            requires
                p == (a as int) * (SCALE as int),
                i64::MIN as int <= a as int <= i64::MAX as int,
                SCALE as int == 65536,
        ;
    }
    let p: i128 = (a as i128) * (SCALE as i128);
    let q: i128 = floor_div_i128(p, b as i128);
    clamp_i128(q)
}

/// Half of a scalar, rounded toward negative infinity.
pub fn fp_half(a: i64) -> (r: i64)
    ensures
        r as int == fp_half_spec(a as int),
{
    let q: i128 = floor_div_i128(a as i128, 2);
    proof {
        vstd::arithmetic::div_mod::lemma_div_is_ordered(i64::MIN as int, a as int, 2);
        vstd::arithmetic::div_mod::lemma_div_is_ordered(a as int, i64::MAX as int, 2);
    }
    q as i64
}

/// A fixed-point square of a scalar is never negative.
pub proof fn lemma_fp_square_nonneg(t: int)
    ensures
        fp_mul_spec(t, t) >= 0,
{
    assert(t * t >= 0) by (nonlinear_arith);
    vstd::arithmetic::div_mod::lemma_div_pos_is_pos(t * t, SCALE as int);
}

/// Largest nonnegative integer whose square does not exceed `n`
/// (zero for negative `n`).
pub open spec fn sqrt_floor(n: int) -> int
    decreases n,
{
    if n <= 0 {
        0
    } else {
        let p = sqrt_floor(n - 1);
        if (p + 1) * (p + 1) <= n {
            p + 1
        } else {
            p
        }
    }
}

/// The defining bounds of `sqrt_floor`: its square is at most `n` and
/// the next square is above `n`.
pub proof fn lemma_sqrt_floor_bounds(n: int)
    requires
        n >= 0,
    ensures
        sqrt_floor(n) >= 0,
        sqrt_floor(n) * sqrt_floor(n) <= n,
        n < (sqrt_floor(n) + 1) * (sqrt_floor(n) + 1),
    decreases n,
{
    if n == 0 {
        assert(sqrt_floor(0) == 0);
    } else {
        lemma_sqrt_floor_bounds(n - 1);
        let p: int = sqrt_floor(n - 1);
        if (p + 1) * (p + 1) <= n {
            assert(n - 1 < (p + 1) * (p + 1));
            assert(n < (p + 2) * (p + 2)) by (nonlinear_arith)
                requires
                    p >= 0,
                    n <= (p + 1) * (p + 1),
            ;
        }
    }
}

/// Two integers that both satisfy the floor-square-root bounds for the
/// same `n` are equal.
proof fn lemma_sqrt_floor_unique(n: int, a: int, b: int)
    requires
        0 <= a,
        0 <= b,
        a * a <= n,
        n < (a + 1) * (a + 1),
        b * b <= n,
        n < (b + 1) * (b + 1),
    ensures
        a == b,
{
    assert(a == b) by (nonlinear_arith)
        requires
            0 <= a,
            0 <= b,
            a * a <= n,
            n < (a + 1) * (a + 1),
            b * b <= n,
            n < (b + 1) * (b + 1),
    ;
}

/// Floor square root of a `u128` below `2^96`, by binary search.
fn isqrt_u128(n: u128) -> (r: u128)
    requires
        n < 0x1000000000000000000000000,
    ensures
        r * r <= n,
        n < (r + 1) * (r + 1),
        r < 0x1000000000000,
{
    let mut lo: u128 = 0;
    let mut hi: u128 = 0x1000000000000;
    while lo + 1 < hi
        invariant
            lo < hi,
            hi <= 0x1000000000000,
            lo * lo <= n,
            n < hi * hi,
        decreases hi - lo,
    {
        let mid: u128 = lo + (hi - lo) / 2;
        proof {
            assert(mid * mid < 0x1000000000000000000000000) by (nonlinear_arith)
                requires
                    mid < 0x1000000000000,
            ;
        }
        if mid * mid <= n {
            lo = mid;
        } else {
            hi = mid;
        }
    }
    lo
}

/// Fixed-point square root of a nonnegative scalar:
/// `sqrt_floor(a * SCALE)`, so that squaring the real value the result
/// stands for roughly recovers `a`.
pub open spec fn fp_sqrt_spec(a: int) -> int {
    sqrt_floor(a * (SCALE as int))
}

/// Square root of a nonnegative scalar, in the same fixed-point
/// representation.
pub fn fp_sqrt(a: i64) -> (r: i64)
    requires
        a >= 0,
    ensures
        r as int == fp_sqrt_spec(a as int),
        r >= 0,
{
    proof {
        assert((a as int) * (SCALE as int) < 0x1000000000000000000000000) by (nonlinear_arith)
            requires
                0 <= a as int <= i64::MAX as int,
                SCALE as int == 65536,
        ;
    }
    let n: u128 = (a as u128) * (SCALE as u128);
    let r: u128 = isqrt_u128(n);
    proof {
        lemma_sqrt_floor_bounds(n as int);
        lemma_sqrt_floor_unique(n as int, r as int, sqrt_floor(n as int));
    }
    r as i64
}

} // verus!
