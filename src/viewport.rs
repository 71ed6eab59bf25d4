//! The region of the complex plane that the grid covers, and how it is sampled.
use vstd::prelude::*;

use crate::complex_number::{complex, ComplexNumber};
use crate::fixed;
use crate::fixed::{ratio, tdiv};

verus! {

/// A rectangle of the complex plane; the corners may be in any order.
#[derive(Debug, Clone, Copy, PartialEq, Eq, Structural)]
pub struct Viewport {
    /// The corner sampled by the first column and the first row
    pub top_left: ComplexNumber,
    /// The corner sampled by the last column and the last row
    pub bottom_right: ComplexNumber,
    /// Display width, a fixed-point value
    pub width: i64,
    /// Display height, a fixed-point value
    pub height: i64,
}

/// The `k`-th of `n` samples spread evenly from `start` to `end`, both included.
/// The offset from `start` is rounded toward zero; one sample is `start` alone.
pub open spec fn sample_at(start: int, end: int, n: nat, k: int) -> int {
    if n <= 1 {
        start
    } else {
        start + tdiv((end - start) * k, n - 1)
    }
}

/// The `n` samples from `start` to `end`.
pub open spec fn sample_seq(start: int, end: int, n: nat) -> Seq<i64> {
    Seq::new(n, |k: int| sample_at(start, end, n, k) as i64)
}

proof fn lemma_sample_between(start: int, end: int, n: nat, k: int)
    requires
        n >= 2,
        0 <= k <= n - 1,
    ensures
        start <= end ==> start <= sample_at(start, end, n, k) <= end,
        end <= start ==> end <= sample_at(start, end, n, k) <= start,
{
    let m = n - 1;
    if end >= start {
        let d = end - start;
        assert(0 <= d * k / m <= d) by (nonlinear_arith)
            requires
                d >= 0,
                0 <= k <= m,
                m >= 1,
        ;
    } else {
        let d = start - end;
        assert((end - start) * k == -(d * k)) by (nonlinear_arith)
            requires
                d == start - end,
        ;
        assert(0 <= d * k / m <= d) by (nonlinear_arith)
            requires
                d >= 0,
                0 <= k <= m,
                m >= 1,
        ;
        assert(d * k >= 0) by (nonlinear_arith)
            requires
                d >= 0,
                k >= 0,
        ;
    }
}

/// The first sample is the start of the axis and the last one its end; a single
/// sample is the start.
pub proof fn lemma_sample_endpoints(start: i64, end: i64, n: nat)
    requires
        n >= 1,
    ensures
        sample_seq(start as int, end as int, n).len() == n,
        sample_seq(start as int, end as int, n)[0] == start,
        n >= 2 ==> sample_seq(start as int, end as int, n)[n - 1] == end,
        n == 1 ==> sample_seq(start as int, end as int, n)[n - 1] == start,
{
    if n >= 2 {
        let m = n - 1;
        let d = end - start;
        if d < 0 {
            assert(d * m < 0) by (nonlinear_arith)
                requires
                    m >= 1,
                    d < 0,
            ;
            assert(-(d * m) == (-d) * m) by (nonlinear_arith);
            assert((-d) * m / m == -d) by (nonlinear_arith)
                requires
                    m >= 1,
            ;
            assert(tdiv(d * m, m) == d);
        } else {
            assert(d * m >= 0) by (nonlinear_arith)
                requires
                    m >= 1,
                    d >= 0,
            ;
            assert(d * m / m == d) by (nonlinear_arith)
                requires
                    m >= 1,
            ;
            assert(tdiv(d * m, m) == d);
        }
        assert(sample_at(start as int, end as int, n, m) == end);
    }
}

/// `n` samples spread evenly from `start` to `end`, both included.
pub fn sample_axis(start: i64, end: i64, n: u32) -> (s: Vec<i64>)
    requires
        n >= 1,
    ensures
        s@ == sample_seq(start as int, end as int, n as nat),
{
    let mut s: Vec<i64> = Vec::new();
    let mut k: u32 = 0;
    while k < n
        invariant
            k <= n,
            n >= 1,
            s@ == sample_seq(start as int, end as int, n as nat).take(k as int),
        decreases n - k,
    {
        let v: i64 = if n == 1 {
            start
        } else {
            proof {
                lemma_sample_between(start as int, end as int, n as nat, k as int);
                let dd = end - start;
                assert(-0x1_0000_0000_0000_0000_0000_0000 <= dd * k <= 0x1_0000_0000_0000_0000_0000_0000)
                    by (nonlinear_arith)
                    requires
                        -0x1_0000_0000_0000_0000 <= dd <= 0x1_0000_0000_0000_0000,
                        0 <= k <= 0x1_0000_0000,
                ;
            }
            let d: i128 = (end as i128) - (start as i128);
            let off: i128 = fixed::tdiv_wide(d * (k as i128), (n - 1) as i128);
            (start as i128 + off) as i64
        };
        s.push(v);
        k = k + 1;
        assert(s@ =~= sample_seq(start as int, end as int, n as nat).take(k as int));
    }
    assert(s@ =~= sample_seq(start as int, end as int, n as nat));
    s
}

/// The two axes of samples that a viewport gives a grid of `w × h` cells: real
/// parts left to right, imaginary parts top to bottom.
pub fn sample(viewport: &Viewport, dimensions: (u32, u32)) -> (axes: (Vec<i64>, Vec<i64>))
    requires
        dimensions.0 >= 1,
        dimensions.1 >= 1,
    ensures
        axes.0@ == sample_seq(
            viewport.top_left.r as int,
            viewport.bottom_right.r as int,
            dimensions.0 as nat,
        ),
        axes.1@ == sample_seq(
            viewport.top_left.i as int,
            viewport.bottom_right.i as int,
            dimensions.1 as nat,
        ),
{
    (
        sample_axis(viewport.top_left.r, viewport.bottom_right.r, dimensions.0),
        sample_axis(viewport.top_left.i, viewport.bottom_right.i, dimensions.1),
    )
}

/// The default viewport: from `-2 + 1.15i` to `0.5 - 1.15i`, 1000 wide and high.
pub open spec fn default_viewport() -> Viewport {
    Viewport {
        top_left: complex(ratio(-2, 1), ratio(115, 100)),
        bottom_right: complex(ratio(1, 2), ratio(-115, 100)),
        width: ratio(1000, 1) as i64,
        height: ratio(1000, 1) as i64,
    }
}

impl Default for Viewport {
    fn default() -> (v: Viewport)
        ensures
            v == default_viewport(),
    {
        Viewport {
            top_left: ComplexNumber::new(fixed::from_ratio(-2, 1), fixed::from_ratio(115, 100)),
            bottom_right: ComplexNumber::new(fixed::from_ratio(1, 2), fixed::from_ratio(-115, 100)),
            width: fixed::from_ratio(1000, 1),
            height: fixed::from_ratio(1000, 1),
        }
    }
}

impl Viewport {
    pub fn with_size(self, width: i64, height: i64) -> (v: Viewport)
        ensures
            v == (Viewport { width, height, ..self }),
    {
        Viewport { width, height, ..self }
    }

    pub fn with_top_left(self, top_left: ComplexNumber) -> (v: Viewport)
        ensures
            v == (Viewport { top_left, ..self }),
    {
        Viewport { top_left, ..self }
    }

    pub fn with_bottom_right(self, bottom_right: ComplexNumber) -> (v: Viewport)
        ensures
            v == (Viewport { bottom_right, ..self }),
    {
        Viewport { bottom_right, ..self }
    }
}

} // verus!
