//! RGBA pixels and the hue/saturation/brightness conversion.
use vstd::prelude::*;

verus! {

/// A color with red, green, blue and alpha channels.
#[derive(Debug, Clone, Copy, PartialEq, Eq, Structural)]
pub struct Pixel {
    pub r: u8,
    pub g: u8,
    pub b: u8,
    pub a: u8,
}

/// The opaque color with the given channels.
pub open spec fn opaque(r: int, g: int, b: int) -> Pixel {
    Pixel { r: r as u8, g: g as u8, b: b as u8, a: 255 }
}

/// Opaque black, the color of a pixel that nothing has drawn yet.
pub open spec fn black() -> Pixel {
    opaque(0, 0, 0)
}

/// The channels of `hsb(hue, sat, val)`: `sat` and `val` are fractions of 255, `hue`
/// is in degrees and taken modulo 360.
pub open spec fn hsb_channels(hue: int, sat: int, val: int) -> (int, int, int) {
    let h = hue % 360;
    let c = val * sat / 255;
    let f = h % 60;
    let sector = h / 60;
    let x = if sector % 2 == 0 {
        c * f / 60
    } else {
        c * (60 - f) / 60
    };
    let m = val - c;
    if sector == 0 {
        (c + m, x + m, m)
    } else if sector == 1 {
        (x + m, c + m, m)
    } else if sector == 2 {
        (m, c + m, x + m)
    } else if sector == 3 {
        (m, x + m, c + m)
    } else if sector == 4 {
        (x + m, m, c + m)
    } else {
        (c + m, m, x + m)
    }
}

/// The opaque pixel of a hue/saturation/brightness triple.
pub open spec fn hsb(hue: int, sat: int, val: int) -> Pixel {
    let (r, g, b) = hsb_channels(hue, sat, val);
    opaque(r, g, b)
}

/// The four channels of a pixel in the order red, green, blue, alpha.
pub open spec fn channels(p: Pixel) -> Seq<u8> {
    seq![p.r, p.g, p.b, p.a]
}

proof fn lemma_hsb_bounds(hue: int, sat: int, val: int)
    requires
        0 <= hue,
        0 <= sat <= 255,
        0 <= val <= 255,
    ensures
        ({
            let (r, g, b) = hsb_channels(hue, sat, val);
            &&& 0 <= r <= val
            &&& 0 <= g <= val
            &&& 0 <= b <= val
            &&& (r == val || g == val || b == val)
        }),
{
    let h = hue % 360;
    let c = val * sat / 255;
    let f = h % 60;
    assert(0 <= c <= val) by (nonlinear_arith)
        requires
            0 <= sat <= 255,
            0 <= val,
            c == val * sat / 255,
    ;
    assert(0 <= c * f / 60 <= c) by (nonlinear_arith)
        requires
            0 <= f < 60,
            0 <= c,
    ;
    assert(0 <= c * (60 - f) / 60 <= c) by (nonlinear_arith)
        requires
            0 <= f < 60,
            0 <= c,
    ;
}

/// The largest channel of an HSB color is its brightness.
pub proof fn lemma_hsb_brightness(hue: int, sat: int, val: int)
    requires
        0 <= hue,
        0 <= sat <= 255,
        0 <= val <= 255,
    ensures
        val > 0 ==> hsb(hue, sat, val) != black(),
        hsb(hue, sat, val).a == 255,
{
    lemma_hsb_bounds(hue, sat, val);
}

impl Pixel {
    /// An opaque pixel.
    pub fn new(r: u8, g: u8, b: u8) -> (p: Pixel)
        ensures
            p == opaque(r as int, g as int, b as int),
    {
        Pixel { r, g, b, a: 255 }
    }

    /// The pixel of a hue (degrees), saturation and brightness (fractions of 255).
    pub fn from_hsb(hue: u32, sat: u8, val: u8) -> (p: Pixel)
        ensures
            p == hsb(hue as int, sat as int, val as int),
    {
        proof {
            lemma_hsb_bounds(hue as int, sat as int, val as int);
        }
        let h: u32 = hue % 360;
        let c: u32 = (val as u32) * (sat as u32) / 255;
        let f: u32 = h % 60;
        let sector: u32 = h / 60;
        proof {
            assert(0 <= c <= val) by (nonlinear_arith)
                requires
                    0 <= sat <= 255,
                    0 <= val <= 255,
                    c == val * sat / 255,
            ;
        }
        let x: u32 = if sector % 2 == 0 {
            c * f / 60
        } else {
            c * (60 - f) / 60
        };
        let m: u32 = val as u32 - c;
        let (r, g, b): (u32, u32, u32) = if sector == 0 {
            (c + m, x + m, m)
        } else if sector == 1 {
            (x + m, c + m, m)
        } else if sector == 2 {
            (m, c + m, x + m)
        } else if sector == 3 {
            (m, x + m, c + m)
        } else if sector == 4 {
            (x + m, m, c + m)
        } else {
            (c + m, m, x + m)
        };
        Pixel { r: r as u8, g: g as u8, b: b as u8, a: 255 }
    }

    pub fn r(&self) -> (v: u8)
        ensures
            v == self.r,
    {
        self.r
    }

    pub fn g(&self) -> (v: u8)
        ensures
            v == self.g,
    {
        self.g
    }

    pub fn b(&self) -> (v: u8)
        ensures
            v == self.b,
    {
        self.b
    }

    pub fn a(&self) -> (v: u8)
        ensures
            v == self.a,
    {
        self.a
    }

    /// The channels in the order red, green, blue, alpha.
    pub fn to_bytes(&self) -> (v: [u8; 4])
        ensures
            v@ == channels(*self),
    {
        let v = [self.r, self.g, self.b, self.a];
        assert(v@ =~= channels(*self));
        v
    }
}

impl Default for Pixel {
    /// Opaque black.
    fn default() -> (p: Pixel)
        ensures
            p == black(),
    {
        Pixel { r: 0, g: 0, b: 0, a: 255 }
    }
}

/// The channels of a row of pixels, pixel after pixel.
pub open spec fn row_bytes(row: Seq<Pixel>) -> Seq<u8>
    decreases row.len(),
{
    if row.len() == 0 {
        Seq::empty()
    } else {
        row_bytes(row.drop_last()) + channels(row.last())
    }
}

/// The channels of a grid of pixels, row after row.
pub open spec fn grid_bytes(rows: Seq<Seq<Pixel>>) -> Seq<u8>
    decreases rows.len(),
{
    if rows.len() == 0 {
        Seq::empty()
    } else {
        grid_bytes(rows.drop_last()) + row_bytes(rows.last())
    }
}

/// The rows of a grid as sequences.
pub open spec fn grid_view(grid: Seq<Vec<Pixel>>) -> Seq<Seq<Pixel>> {
    grid.map_values(|r: Vec<Pixel>| r@)
}

/// The channels of every pixel, row after row, in the order red, green, blue, alpha.
pub fn flatten_array(grid: Vec<Vec<Pixel>>) -> (bytes: Vec<u8>)
    ensures
        bytes@ == grid_bytes(grid_view(grid@)),
{
    let mut bytes: Vec<u8> = Vec::new();
    let mut y: usize = 0;
    while y < grid.len()
        invariant
            y <= grid@.len(),
            bytes@ == grid_bytes(grid_view(grid@).take(y as int)),
        decreases grid@.len() - y,
    {
        let row = &grid[y];
        let ghost done = bytes@;
        let mut x: usize = 0;
        while x < row.len()
            invariant
                x <= row@.len(),
                bytes@ == done + row_bytes(row@.take(x as int)),
            decreases row@.len() - x,
        {
            let p = row[x];
            bytes.push(p.r);
            bytes.push(p.g);
            bytes.push(p.b);
            bytes.push(p.a);
            assert(row@.take(x + 1).drop_last() =~= row@.take(x as int));
            x = x + 1;
            assert(bytes@ =~= done + row_bytes(row@.take(x as int)));
        }
        assert(row@.take(row@.len() as int) =~= row@);
        assert(grid_view(grid@).take(y + 1).drop_last() =~= grid_view(grid@).take(y as int));
        y = y + 1;
        assert(bytes@ =~= grid_bytes(grid_view(grid@).take(y as int)));
    }
    assert(grid_view(grid@).take(grid@.len() as int) =~= grid_view(grid@));
    bytes
}

} // verus!
