//! Complex numbers over fixed-point coordinates.
use vstd::prelude::*;

use crate::fixed;
use crate::fixed::{add_spec, clamp, div_spec, mul_spec, one, sub_spec};

verus! {

/// A complex number `r + i·i`; both parts are fixed-point values (see `fixed`).
#[derive(Debug, Clone, Copy, PartialEq, Eq, Structural)]
pub struct ComplexNumber {
    /// The real part
    pub r: i64,
    /// The imaginary part
    pub i: i64,
}

/// The complex number with the given parts.
pub open spec fn complex(r: int, i: int) -> ComplexNumber {
    ComplexNumber { r: r as i64, i: i as i64 }
}

/// Sum of two complex numbers.
pub open spec fn cadd(a: ComplexNumber, b: ComplexNumber) -> ComplexNumber {
    complex(add_spec(a.r as int, b.r as int), add_spec(a.i as int, b.i as int))
}

/// `(a+bi)(c+di) = (ac−bd) + (ad+bc)i`, each product rounded and saturated.
pub open spec fn cmul(a: ComplexNumber, b: ComplexNumber) -> ComplexNumber {
    complex(
        sub_spec(mul_spec(a.r as int, b.r as int), mul_spec(a.i as int, b.i as int)),
        add_spec(mul_spec(a.r as int, b.i as int), mul_spec(a.i as int, b.r as int)),
    )
}

/// `z^e` as `e - 1` repeated multiplications by `z`; exponents 0 and 1 give `z`.
pub open spec fn cpow(z: ComplexNumber, e: nat) -> ComplexNumber
    decreases e,
{
    if e <= 1 {
        z
    } else {
        cmul(cpow(z, (e - 1) as nat), z)
    }
}

/// The exact squared magnitude, in units of `2^-96`.
pub open spec fn nsq(z: ComplexNumber) -> int {
    z.r * z.r + z.i * z.i
}

/// Whether `|z|² ≤ 4`.
pub open spec fn in_radius(z: ComplexNumber) -> bool {
    nsq(z) <= 4 * one() * one()
}

proof fn lemma_square_bound(x: int)
    requires
        i64::MIN <= x <= i64::MAX,
    ensures
        0 <= x * x <= 0x4000_0000_0000_0000_0000_0000_0000_0000,
{
    fixed::lemma_mul_bound(x, x, 0x8000_0000_0000_0000);
    assert(0 <= x * x) by (nonlinear_arith);
}

/// The wide integer square root: `r*r <= n < (r+1)*(r+1)`.
pub fn isqrt(n: u128) -> (r: u64)
    ensures
        r * r <= n,
        n < (r + 1) * (r + 1),
{
    let mut lo: u128 = 0;
    let mut hi: u128 = 0x1_0000_0000_0000_0000;
    assert(n < hi * hi);
    while hi - lo > 1
        invariant
            lo < hi <= 0x1_0000_0000_0000_0000,
            lo * lo <= n,
            n < hi * hi,
        decreases hi - lo,
    {
        let mid: u128 = lo + (hi - lo) / 2;
        assert(mid * mid < 0x1_0000_0000_0000_0000_0000_0000_0000_0000) by (nonlinear_arith)
            requires
                mid < 0x1_0000_0000_0000_0000,
        ;
        if mid * mid <= n {
            lo = mid;
        } else {
            hi = mid;
        }
    }
    assert(hi == lo + 1);
    lo as u64
}

impl ComplexNumber {
    pub fn new(r: i64, i: i64) -> (z: ComplexNumber)
        ensures
            z.r == r,
            z.i == i,
    {
        ComplexNumber { r, i }
    }

    /// The magnitude `sqrt(r² + i²)`, rounded down and saturated.
    pub fn abs(self) -> (m: i64)
        ensures
            m >= 0,
            nsq(self) < (i64::MAX + 1) * (i64::MAX + 1) ==> m * m <= nsq(self) < (m + 1) * (m + 1),
            nsq(self) >= (i64::MAX + 1) * (i64::MAX + 1) ==> m == i64::MAX,
    {
        proof {
            lemma_square_bound(self.r as int);
            lemma_square_bound(self.i as int);
        }
        let n: u128 = ((self.r as i128) * (self.r as i128)) as u128 + ((self.i as i128) * (
        self.i as i128)) as u128;
        let s = isqrt(n);
        if s > i64::MAX as u64 {
            proof {
                assert((i64::MAX + 1) * (i64::MAX + 1) <= s * s) by (nonlinear_arith)
                    requires
                        s >= i64::MAX + 1,
                ;
            }
            i64::MAX
        } else {
            proof {
                if nsq(self) >= (i64::MAX + 1) * (i64::MAX + 1) {
                    assert((s + 1) * (s + 1) <= (i64::MAX + 1) * (i64::MAX + 1)) by (nonlinear_arith)
                        requires
                            0 <= s <= i64::MAX,
                    ;
                }
            }
            s as i64
        }
    }

    /// The squared magnitude `r² + i²` as a fixed-point value, rounded down and saturated.
    pub fn norm_sqr(&self) -> (n: i64)
        ensures
            n == clamp(nsq(*self) / one()),
    {
        proof {
            lemma_square_bound(self.r as int);
            lemma_square_bound(self.i as int);
        }
        let n: u128 = ((self.r as i128) * (self.r as i128)) as u128 + ((self.i as i128) * (
        self.i as i128)) as u128;
        let q: u128 = n / (fixed::ONE as u128);
        if q > i64::MAX as u128 {
            i64::MAX
        } else {
            q as i64
        }
    }

    /// Whether `|z|² ≤ 4`, decided exactly.
    pub fn within_escape_radius(&self) -> (b: bool)
        ensures
            b == in_radius(*self),
    {
        let two: i64 = 2 * fixed::ONE;
        if self.r > two || self.r < -two || self.i > two || self.i < -two {
            proof {
                assert(nsq(*self) > 4 * one() * one()) by (nonlinear_arith)
                    requires
                        self.r > 2 * one() || self.r < -2 * one() || self.i > 2 * one() || self.i
                            < -2 * one(),
                        one() > 0,
                ;
            }
            false
        } else {
            proof {
                fixed::lemma_mul_bound(self.r as int, self.r as int, 2 * one());
                fixed::lemma_mul_bound(self.i as int, self.i as int, 2 * one());
            }
            let n: i128 = (self.r as i128) * (self.r as i128) + (self.i as i128) * (self.i as i128);
            n <= 4 * (fixed::ONE as i128) * (fixed::ONE as i128)
        }
    }

    /// Whether `|z|² < 32`, decided exactly.
    pub fn within_julia_radius(&self) -> (b: bool)
        ensures
            b == (nsq(*self) < 32 * one() * one()),
    {
        let six: i64 = 6 * fixed::ONE;
        if self.r > six || self.r < -six || self.i > six || self.i < -six {
            proof {
                assert(nsq(*self) >= 32 * one() * one()) by (nonlinear_arith)
                    requires
                        self.r > 6 * one() || self.r < -6 * one() || self.i > 6 * one() || self.i
                            < -6 * one(),
                        one() > 0,
                ;
            }
            false
        } else {
            proof {
                fixed::lemma_mul_bound(self.r as int, self.r as int, 6 * one());
                fixed::lemma_mul_bound(self.i as int, self.i as int, 6 * one());
            }
            let n: i128 = (self.r as i128) * (self.r as i128) + (self.i as i128) * (self.i as i128);
            n < 32 * (fixed::ONE as i128) * (fixed::ONE as i128)
        }
    }

    /// Complex sum.
    pub fn add(self, other: ComplexNumber) -> (z: ComplexNumber)
        ensures
            z == cadd(self, other),
    {
        ComplexNumber { r: fixed::add(self.r, other.r), i: fixed::add(self.i, other.i) }
    }

    /// Adds a real scalar to the real part.
    pub fn add_scalar(self, s: i64) -> (z: ComplexNumber)
        ensures
            z.r == add_spec(self.r as int, s as int),
            z.i == self.i,
    {
        ComplexNumber { r: fixed::add(self.r, s), i: self.i }
    }

    /// Complex product.
    pub fn mul(self, other: ComplexNumber) -> (z: ComplexNumber)
        ensures
            z == cmul(self, other),
    {
        ComplexNumber {
            r: fixed::sub(fixed::mul(self.r, other.r), fixed::mul(self.i, other.i)),
            i: fixed::add(fixed::mul(self.r, other.i), fixed::mul(self.i, other.r)),
        }
    }

    /// Multiplies in place: `self := self * rhs`.
    pub fn mul_assign(&mut self, rhs: ComplexNumber)
        ensures
            *final(self) == cmul(*old(self), rhs),
    {
        *self = self.mul(rhs);
    }

    /// Multiplies both parts by a real scalar.
    pub fn mul_scalar(self, s: i64) -> (z: ComplexNumber)
        ensures
            z.r == mul_spec(self.r as int, s as int),
            z.i == mul_spec(self.i as int, s as int),
    {
        ComplexNumber { r: fixed::mul(self.r, s), i: fixed::mul(self.i, s) }
    }

    /// Divides both parts by a nonzero real scalar.
    pub fn div_scalar(self, s: i64) -> (z: ComplexNumber)
        requires
            s != 0,
        ensures
            z.r == div_spec(self.r as int, s as int),
            z.i == div_spec(self.i as int, s as int),
    {
        ComplexNumber { r: fixed::div(self.r, s), i: fixed::div(self.i, s) }
    }

    /// Integer power by repeated multiplication.
    pub fn pow(&self, e: u32) -> (z: ComplexNumber)
        ensures
            z == cpow(*self, e as nat),
    {
        let mut r = *self;
        let mut k: u32 = 1;
        while k < e
            invariant
                1 <= k,
                e == 0 ==> k == 1,
                e > 0 ==> k <= e,
                r == cpow(*self, k as nat),
            decreases e - k,
        {
            r.mul_assign(*self);
            k = k + 1;
        }
        r
    }

    /// Compares two complex numbers by magnitude.
    pub fn cmp_magnitude(&self, other: &ComplexNumber) -> (o: core::cmp::Ordering)
        ensures
            o == core::cmp::Ordering::Less <==> nsq(*self) < nsq(*other),
            o == core::cmp::Ordering::Equal <==> nsq(*self) == nsq(*other),
            o == core::cmp::Ordering::Greater <==> nsq(*self) > nsq(*other),
    {
        proof {
            lemma_square_bound(self.r as int);
            lemma_square_bound(self.i as int);
            lemma_square_bound(other.r as int);
            lemma_square_bound(other.i as int);
        }
        let a: u128 = ((self.r as i128) * (self.r as i128)) as u128 + ((self.i as i128) * (
        self.i as i128)) as u128;
        let b: u128 = ((other.r as i128) * (other.r as i128)) as u128 + ((other.i as i128) * (
        other.i as i128)) as u128;
        if a < b {
            core::cmp::Ordering::Less
        } else if a == b {
            core::cmp::Ordering::Equal
        } else {
            core::cmp::Ordering::Greater
        }
    }
}

} // verus!
