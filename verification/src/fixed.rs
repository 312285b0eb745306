//! Fixed-point plane arithmetic.
//!
//! Plane coordinates are stored as signed 64-bit integers counting millionths,
//! so the real value `x` is represented by `x * 1_000_000` rounded toward
//! zero.  The two primitives here, a fixed-point product and a scaled
//! multiply-divide, round toward zero like the exec code that implements
//! them, and every caller reasons in terms of their exact spec-level values.

use vstd::prelude::*;

verus! {

/// One unit of the fixed-point encoding: values count millionths.
pub const FIXED_ONE: i64 = 1_000_000;

/// Largest magnitude accepted by `fmul`; products of two such operands,
/// scaled down by `FIXED_ONE`, still fit in an `i64`.
pub const FMUL_LIMIT: i64 = 2_000_000_000_000;

/// Magnitude of a mathematical integer.
pub open spec fn abs_val(x: int) -> int {
    if x >= 0 {
        x
    } else {
        -x
    }
}

/// Fixed-point product rounded toward zero: the exact value of
/// `(a * b) / FIXED_ONE` with truncating division.
pub open spec fn fmul_spec(a: int, b: int) -> int {
    if a * b >= 0 {
        (a * b) / (FIXED_ONE as int)
    } else {
        -((-(a * b)) / (FIXED_ONE as int))
    }
}

/// Scaled product rounded toward zero: the exact value of `(a * b) / d`
/// with truncating division, for `a >= 0` and `d > 0`.
pub open spec fn mul_div_spec(a: int, b: int, d: int) -> int {
    if b >= 0 {
        (a * b) / d
    } else {
        -((a * (-b)) / d)
    }
}

/// Multiplies two fixed-point values and rescales, rounding toward zero.
pub fn fmul(a: i64, b: i64) -> (r: i64)
    requires
        -FMUL_LIMIT <= a <= FMUL_LIMIT,
        -FMUL_LIMIT <= b <= FMUL_LIMIT,
    ensures
        r == fmul_spec(a as int, b as int),
{
    proof {
        lemma_fmul_bounded(
            a as int,
            b as int,
            2_000_000_000_000,
            2_000_000_000_000,
            i64::MAX as int,
        );
    }
    let p: i128 = (a as i128) * (b as i128);
    if p >= 0 {
        let q: u128 = (p as u128) / (FIXED_ONE as u128);
        q as i64
    } else {
        let q: u128 = ((-p) as u128) / (FIXED_ONE as u128);
        -(q as i64)
    }
}

/// Bounds the fixed-point product: operands no larger than `ma` and `mb` in
/// magnitude give a product no larger than `q`, provided
/// `ma * mb <= q * FIXED_ONE`.
pub proof fn lemma_fmul_bounded(a: int, b: int, ma: int, mb: int, q: int)
    requires
        -ma <= a <= ma,
        -mb <= b <= mb,
        0 <= q,
        ma * mb <= q * FIXED_ONE,
    ensures
        -q <= fmul_spec(a, b) <= q,
{
    let one = FIXED_ONE as int;
    assert(-(ma * mb) <= a * b <= ma * mb) by (nonlinear_arith)
        requires
            -ma <= a <= ma,
            -mb <= b <= mb,
    ;
    assert(ma * mb <= one * q) by (nonlinear_arith)
        requires
            ma * mb <= q * FIXED_ONE,
            one == FIXED_ONE,
    ;
    if a * b >= 0 {
        vstd::arithmetic::div_mod::lemma_multiply_divide_le(a * b, one, q);
        vstd::arithmetic::div_mod::lemma_div_pos_is_pos(a * b, one);
    } else {
        vstd::arithmetic::div_mod::lemma_multiply_divide_le(-(a * b), one, q);
        vstd::arithmetic::div_mod::lemma_div_pos_is_pos(-(a * b), one);
    }
}

/// A fixed-point square is never negative.
pub proof fn lemma_fmul_square_nonneg(a: int)
    ensures
        fmul_spec(a, a) >= 0,
{
    assert(a * a >= 0) by (nonlinear_arith);
    vstd::arithmetic::div_mod::lemma_div_pos_is_pos(a * a, FIXED_ONE as int);
}

/// If a fixed-point square is at most `4 * FIXED_ONE`, the operand's
/// magnitude is at most `2 * FIXED_ONE`.
pub proof fn lemma_fmul_square_small(a: int)
    requires
        fmul_spec(a, a) <= 4 * FIXED_ONE,
    ensures
        -2 * FIXED_ONE <= a <= 2 * FIXED_ONE,
{
    let one = FIXED_ONE as int;
    assert(a * a >= 0) by (nonlinear_arith);
    // From floor(a * a / one) <= 4 * one conclude a * a < (4 * one + 1) * one.
    if a * a >= (4 * one + 1) * one {
        vstd::arithmetic::div_mod::lemma_div_is_ordered((4 * one + 1) * one, a * a, one);
        vstd::arithmetic::div_mod::lemma_div_by_multiple(4 * one + 1, one);
        assert(false);
    }
    assert(-2 * one <= a <= 2 * one) by (nonlinear_arith)
        requires
            a * a < (4 * one + 1) * one,
            one == 1_000_000,
    ;
}

/// Multiplies a non-negative value by a signed factor and divides by a
/// positive divisor, rounding toward zero.
pub fn mul_div(a: i64, b: i64, d: i64) -> (r: i64)
    requires
        0 <= a,
        0 < d,
        a * abs_val(b as int) <= i64::MAX,
    ensures
        r == mul_div_spec(a as int, b as int, d as int),
        abs_val(r as int) == (a * abs_val(b as int)) / (d as int),
        -(d as int) <= b <= d ==> -(a as int) <= r <= a,
{
    let bn: u128 = if b >= 0 {
        b as u128
    } else {
        (-(b as i128)) as u128
    };
    proof {
        vstd::arithmetic::div_mod::lemma_div_is_ordered(
            (a as int) * (bn as int),
            i64::MAX as int,
            d as int,
        );
        vstd::arithmetic::div_mod::lemma_div_pos_is_pos((a as int) * (bn as int), d as int);
        vstd::arithmetic::div_mod::lemma_div_by_self(d as int);
        if -(d as int) <= b <= d {
            assert((a as int) * (bn as int) <= (a as int) * (d as int)) by (nonlinear_arith)
                requires
                    0 <= a,
                    0 <= bn <= d,
            ;
            vstd::arithmetic::div_mod::lemma_div_is_ordered(
                (a as int) * (bn as int),
                (a as int) * (d as int),
                d as int,
            );
            vstd::arithmetic::div_mod::lemma_div_by_multiple(a as int, d as int);
        }
    }
    let q: u128 = ((a as u128) * bn) / (d as u128);
    if b >= 0 {
        q as i64
    } else {
        -(q as i64)
    }
}

} // verus!
