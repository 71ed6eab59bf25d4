//! Positions along a Hilbert curve.
use vstd::prelude::*;

verus! {

/// The corner of the unit square visited in place `d` (0 to 3) of the first level.
pub open spec fn corner(d: int) -> (int, int) {
    if d == 0 {
        (0, 0)
    } else if d == 1 {
        (0, 1)
    } else if d == 2 {
        (1, 1)
    } else {
        (1, 0)
    }
}

/// Moves a point of a sub-square of side `half` into quadrant `d` of the square of
/// side `2 * half`, turned as the curve needs.
pub open spec fn place(p: (int, int), d: int, half: int) -> (int, int) {
    if d == 0 {
        (p.1, p.0)
    } else if d == 1 {
        (p.0, p.1 + half)
    } else if d == 2 {
        (p.0 + half, p.1 + half)
    } else {
        (half - 1 - p.1 + half, half - 1 - p.0)
    }
}

/// The point after placing `p` level by level, taking the base-4 digits of
/// `rest` from the lowest, for squares of side `n`, `2n`, ... up to `size`.
pub open spec fn walk(p: (int, int), rest: nat, n: nat, size: nat) -> (int, int)
    decreases 2 * size + 2 - n,
    when n >= 4
{
    if n <= size {
        walk(place(p, (rest % 4) as int, (n / 2) as int), rest / 4, 2 * n, size)
    } else {
        p
    }
}

/// The two lowest bits of `n`.
pub fn last_two_bits(n: usize) -> (r: usize)
    ensures
        r == n % 4,
{
    proof {
        assert(n & 3 == n % 4) by (bit_vector);
    }
    n & 3
}

/// The point visited at step `i` of the Hilbert curve that fills a square of side
/// `size` (a power of two).
pub fn i_to_xy(old_i: usize, size: usize) -> (r: (usize, usize))
    requires
        size <= usize::MAX / 2,
    ensures
        (r.0 as int, r.1 as int) == walk(corner((old_i % 4) as int), (old_i / 4) as nat, 4, size as nat),
        r.0 < (if size >= 4 { size as int } else { 2 }),
        r.1 < (if size >= 4 { size as int } else { 2 }),
{
    let d = last_two_bits(old_i);
    let (mut x, mut y): (usize, usize) = if d == 0 {
        (0, 0)
    } else if d == 1 {
        (0, 1)
    } else if d == 2 {
        (1, 1)
    } else {
        (1, 0)
    };

    let mut i = old_i / 4;
    let mut n: usize = 4;
    while n <= size
        invariant
            4 <= n,
            n % 2 == 0,
            n <= 2 * size + 4,
            size <= usize::MAX / 2,
            x < n / 2,
            y < n / 2,
            n / 2 <= (if size >= 4 { size as int } else { 2 }),
            walk((x as int, y as int), i as nat, n as nat, size as nat) == walk(
                corner((old_i % 4) as int),
                (old_i / 4) as nat,
                4,
                size as nat,
            ),
        decreases 2 * size + 2 - n,
    {
        let half = n / 2;
        let d = last_two_bits(i);
        if d == 0 {
            let t = x;
            x = y;
            y = t;
        } else if d == 1 {
            y = y + half;
        } else if d == 2 {
            x = x + half;
            y = y + half;
        } else {
            let t = y;
            y = half - 1 - x;
            x = half - 1 - t;
            x = x + half;
        }
        i = i / 4;
        n = n * 2;
    }
    (x, y)
}

} // verus!
