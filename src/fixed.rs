//! Binary fixed-point scalars.
//!
//! A coordinate of the complex plane is an `i64` that counts units of
//! `2^-48`: the value `x` stands for `x / ONE`. Every operation saturates at
//! the bounds of `i64`, and divisions round toward zero.
use vstd::prelude::*;

verus! {

/// The fixed-point representation of `1`, that is `2^48`.
pub const ONE: i64 = 281474976710656;

/// `ONE` as a mathematical integer.
pub open spec fn one() -> int {
    281474976710656
}

/// Saturates an integer into the range of `i64`.
pub open spec fn clamp(x: int) -> int {
    if x < i64::MIN {
        i64::MIN as int
    } else if x > i64::MAX {
        i64::MAX as int
    } else {
        x
    }
}

/// Division rounding toward zero, for a positive divisor.
pub open spec fn tdiv(x: int, d: int) -> int {
    if x >= 0 {
        x / d
    } else {
        -((-x) / d)
    }
}

/// The fixed-point value of `num / den`, rounded toward zero and saturated.
pub open spec fn ratio(num: int, den: int) -> int {
    clamp(tdiv(num * one(), den))
}

/// Saturating sum of two fixed-point values.
pub open spec fn add_spec(a: int, b: int) -> int {
    clamp(a + b)
}

/// Saturating difference of two fixed-point values.
pub open spec fn sub_spec(a: int, b: int) -> int {
    clamp(a - b)
}

/// Saturating product of two fixed-point values, rounded toward zero.
pub open spec fn mul_spec(a: int, b: int) -> int {
    clamp(tdiv(a * b, one()))
}

/// Saturating quotient of two fixed-point values, rounded toward zero.
pub open spec fn div_spec(a: int, b: int) -> int {
    if b > 0 {
        clamp(tdiv(a * one(), b))
    } else {
        clamp(tdiv(-(a * one()), -b))
    }
}

pub proof fn lemma_mul_bound(a: int, b: int, m: int)
    requires
        0 <= m,
        -m <= a <= m,
        -m <= b <= m,
    ensures
        -(m * m) <= a * b <= m * m,
{
    assert(-(m * m) <= a * b <= m * m) by (nonlinear_arith)
        requires
            0 <= m,
            -m <= a <= m,
            -m <= b <= m,
    ;
}

proof fn lemma_div_le(x: int, d: int)
    requires
        x >= 0,
        d > 0,
    ensures
        0 <= x / d <= x,
{
    assert(0 <= x / d <= x) by (nonlinear_arith)
        requires
            x >= 0,
            d > 0,
    ;
}

/// Saturates a wide integer into an `i64`.
pub fn clamp_wide(x: i128) -> (r: i64)
    ensures
        r == clamp(x as int),
{
    if x < i64::MIN as i128 {
        i64::MIN
    } else if x > i64::MAX as i128 {
        i64::MAX
    } else {
        x as i64
    }
}

/// Divides a wide integer by a positive one, rounding toward zero.
pub fn tdiv_wide(x: i128, d: i128) -> (r: i128)
    requires
        d > 0,
        x > i128::MIN,
    ensures
        r == tdiv(x as int, d as int),
{
    proof {
        if x >= 0 {
            lemma_div_le(x as int, d as int);
        } else {
            lemma_div_le(-x, d as int);
        }
    }
    if x >= 0 {
        x / d
    } else {
        -((-x) / d)
    }
}

/// The fixed-point value of a whole number, saturated.
pub fn from_int(n: i64) -> (r: i64)
    ensures
        r == clamp(n * one()),
{
    proof {
        lemma_mul_bound(n as int, one(), 0x8000_0000_0000_0000);
    }
    clamp_wide((n as i128) * (ONE as i128))
}

/// The fixed-point value of `num / den`, rounded toward zero and saturated.
pub fn from_ratio(num: i64, den: i64) -> (r: i64)
    requires
        den > 0,
    ensures
        r == ratio(num as int, den as int),
{
    proof {
        lemma_mul_bound(num as int, one(), 0x8000_0000_0000_0000);
    }
    let p: i128 = (num as i128) * (ONE as i128);
    clamp_wide(tdiv_wide(p, den as i128))
}

/// Saturating sum.
pub fn add(a: i64, b: i64) -> (r: i64)
    ensures
        r == add_spec(a as int, b as int),
{
    clamp_wide(a as i128 + b as i128)
}

/// Saturating difference.
pub fn sub(a: i64, b: i64) -> (r: i64)
    ensures
        r == sub_spec(a as int, b as int),
{
    clamp_wide(a as i128 - b as i128)
}

/// Saturating product, rounded toward zero.
pub fn mul(a: i64, b: i64) -> (r: i64)
    ensures
        r == mul_spec(a as int, b as int),
{
    proof {
        lemma_mul_bound(a as int, b as int, 0x8000_0000_0000_0000);
    }
    let p: i128 = (a as i128) * (b as i128);
    clamp_wide(tdiv_wide(p, ONE as i128))
}

/// Saturating quotient, rounded toward zero.
pub fn div(a: i64, b: i64) -> (r: i64)
    requires
        b != 0,
    ensures
        r == div_spec(a as int, b as int),
{
    proof {
        lemma_mul_bound(a as int, one(), 0x8000_0000_0000_0000);
    }
    let p: i128 = (a as i128) * (ONE as i128);
    if b > 0 {
        clamp_wide(tdiv_wide(p, b as i128))
    } else {
        clamp_wide(tdiv_wide(-p, -(b as i128)))
    }
}

} // verus!
