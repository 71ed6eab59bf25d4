//! The per-pixel escape-time recurrence, resumable from a saved state.
use vstd::prelude::*;

use crate::complex_number::{cadd, cmul, complex, cpow, in_radius, nsq, ComplexNumber};
use crate::fixed;
use crate::fixed::{one, ratio};

verus! {

/// Iterates `z := c + z^e` from `(count, z)` while `|z|² ≤ 4` and `count < limit`.
pub open spec fn escape_loop(c: ComplexNumber, e: nat, limit: nat, count: nat, z: ComplexNumber) -> (
    nat,
    ComplexNumber,
)
    decreases limit - count,
{
    if in_radius(z) && count < limit {
        escape_loop(c, e, limit, count + 1, cadd(c, cpow(z, e)))
    } else {
        (count, z)
    }
}

/// The state after iterating from `state` up to `limit`; a fresh state (count 0)
/// starts from `z = c`.
pub open spec fn escape(state: (nat, ComplexNumber), c: ComplexNumber, e: nat, limit: nat) -> (
    nat,
    ComplexNumber,
) {
    escape_loop(c, e, limit, state.0, if state.0 == 0 { c } else { state.1 })
}

/// Iterates the cell at `c` from `current_coord` until `|z|² > 4` or the count
/// reaches `limit`.
pub fn iterate_coordinate(
    current_coord: (u32, ComplexNumber),
    c: ComplexNumber,
    exponent: u32,
    limit: u32,
) -> (r: (u32, ComplexNumber))
    ensures
        (r.0 as nat, r.1) == escape(
            (current_coord.0 as nat, current_coord.1),
            c,
            exponent as nat,
            limit as nat,
        ),
{
    let (mut count, z0) = current_coord;
    let mut z = if count == 0 {
        c
    } else {
        z0
    };
    let ghost start = z;
    while z.within_escape_radius() && count < limit
        invariant
            escape_loop(c, exponent as nat, limit as nat, count as nat, z) == escape_loop(
                c,
                exponent as nat,
                limit as nat,
                current_coord.0 as nat,
                start,
            ),
        decreases limit - count,
    {
        z = c.add(z.pow(exponent));
        count = count + 1;
    }
    (count, z)
}

proof fn lemma_loop_grows(c: ComplexNumber, e: nat, limit: nat, count: nat, z: ComplexNumber)
    ensures
        escape_loop(c, e, limit, count, z).0 >= count,
        escape_loop(c, e, limit, count, z).0 == count ==> escape_loop(c, e, limit, count, z).1
            == z,
    decreases limit - count,
{
    if in_radius(z) && count < limit {
        lemma_loop_grows(c, e, limit, count + 1, cadd(c, cpow(z, e)));
    }
}

proof fn lemma_loop_extends(
    c: ComplexNumber,
    e: nat,
    l1: nat,
    l2: nat,
    count: nat,
    z: ComplexNumber,
)
    requires
        l1 <= l2,
    ensures
        ({
            let (k, w) = escape_loop(c, e, l1, count, z);
            escape_loop(c, e, l2, k, w) == escape_loop(c, e, l2, count, z)
        }),
    decreases l1 - count,
{
    if in_radius(z) && count < l1 {
        lemma_loop_extends(c, e, l1, l2, count + 1, cadd(c, cpow(z, e)));
    }
}

/// Resuming is the same as starting over: iterating a fresh cell up to `b1` and
/// then resuming up to `b1 + b2` gives the state of a fresh run up to `b1 + b2`.
pub proof fn lemma_resume(c: ComplexNumber, e: nat, b1: nat, b2: nat, z0: ComplexNumber, z1: ComplexNumber)
    ensures
        escape(escape((0, z0), c, e, b1), c, e, b1 + b2) == escape((0, z1), c, e, b1 + b2),
{
    lemma_loop_grows(c, e, b1, 0, c);
    lemma_loop_extends(c, e, b1, b1 + b2, 0, c);
}

/// The constant of the Julia recurrence, `0.38 + 0.28i`.
pub open spec fn julia_constant() -> ComplexNumber {
    complex(ratio(38, 100), ratio(28, 100))
}

/// Iterates `z := z² + k` (`k` the Julia constant) while `|z|² < 32` and
/// `count < limit`.
pub open spec fn julia_loop(limit: nat, count: nat, z: ComplexNumber) -> (nat, ComplexNumber)
    decreases limit - count,
{
    if count < limit && nsq(z) < 32 * one() * one() {
        julia_loop(limit, count + 1, cadd(cmul(z, z), julia_constant()))
    } else {
        (count, z)
    }
}

/// The Julia iteration of the point `x + yi`: the count and the final value.
pub fn julia(x: i64, y: i64, iterations: u32) -> (r: (u32, ComplexNumber))
    ensures
        (r.0 as nat, r.1) == julia_loop(iterations as nat, 0, complex(x as int, y as int)),
{
    let mut z = ComplexNumber::new(x, y);
    let c = ComplexNumber::new(fixed::from_ratio(38, 100), fixed::from_ratio(28, 100));
    let mut i: u32 = 0;
    while i < iterations && z.within_julia_radius()
        invariant
            c == julia_constant(),
            julia_loop(iterations as nat, i as nat, z) == julia_loop(
                iterations as nat,
                0,
                complex(x as int, y as int),
            ),
        decreases iterations - i,
    {
        z = z.mul(z).add(c);
        i = i + 1;
    }
    (i, z)
}

} // verus!
