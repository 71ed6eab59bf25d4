//! The escape-time engine: a grid of resumable iteration states and its pixels.
use vstd::prelude::*;

use crate::color_scale::{color_of, ColorFn, ContinuousColorScale};
use crate::complex_number::{complex, ComplexNumber};
use crate::config::MandelbrotConfig;
use crate::escape_time::{escape, iterate_coordinate, julia, julia_loop, lemma_resume};
use crate::fixed;
use crate::fixed::clamp;
use crate::pixel::{black, Pixel};
use crate::settings::GeneratorSettingsOld;
use crate::viewport::{lemma_sample_endpoints, sample, sample_seq, Viewport};

verus! {

/// The state of a cell that has not been iterated.
pub open spec fn fresh() -> (u32, ComplexNumber) {
    (0u32, complex(0, 0))
}

/// The step of the samples `a`, `b` used to extrapolate past them: `|b − a|`,
/// negated where either sample is negative.
pub open spec fn step_between(a: int, b: int) -> int {
    let d = if a > b {
        a - b
    } else {
        b - a
    };
    if a < 0 || b < 0 {
        -d
    } else {
        d
    }
}

/// The plane coordinate of grid index `idx` along an axis of samples `s`:
/// the sample itself inside the axis, and a linear extrapolation by the step
/// of the two nearest samples outside it (saturated). A single sample gives
/// itself everywhere.
pub open spec fn resolve(s: Seq<i64>, idx: int) -> int {
    let n = s.len() as int;
    if 0 <= idx < n {
        s[idx] as int
    } else if n == 1 {
        s[0] as int
    } else if idx < 0 {
        clamp(s[0] + step_between(s[0] as int, s[1] as int) * (-idx))
    } else {
        clamp(s[n - 1] + step_between(s[n - 2] as int, s[n - 1] as int) * (idx - (n - 1)))
    }
}

/// The escape-time engine.
pub struct Mandelbrot {
    /// The configuration in force
    pub config: MandelbrotConfig,
    /// One row of pixels per row of the grid
    pub pixels: Vec<Vec<Pixel>>,
    /// The sampled real parts (one per column) and imaginary parts (one per row)
    pub coords: (Vec<i64>, Vec<i64>),
    /// The iteration state `(count, z)` of each cell, by row
    pub values: Vec<Vec<(u32, ComplexNumber)>>,
    /// The iteration budget
    pub iterations: u32,
    /// The largest count of the last recalculation
    pub max_iterations: u32,
}

impl Mandelbrot {
    pub open spec fn width(&self) -> nat {
        self.config.dimensions.0 as nat
    }

    pub open spec fn height(&self) -> nat {
        self.config.dimensions.1 as nat
    }

    /// Every grid has the configured shape, and the axes sample the viewport.
    pub open spec fn wf(&self) -> bool {
        &&& self.config.wf()
        &&& self.coords.0@ == sample_seq(
            self.config.viewport.top_left.r as int,
            self.config.viewport.bottom_right.r as int,
            self.width(),
        )
        &&& self.coords.1@ == sample_seq(
            self.config.viewport.top_left.i as int,
            self.config.viewport.bottom_right.i as int,
            self.height(),
        )
        &&& self.pixels@.len() == self.height()
        &&& forall|y: int| 0 <= y < self.height() ==> (#[trigger] self.pixels@[y])@.len() == self.width()
        &&& self.values@.len() == self.height()
        &&& forall|y: int| 0 <= y < self.height() ==> (#[trigger] self.values@[y])@.len() == self.width()
    }

    /// The sampled point of the cell in column `x` and row `y`.
    pub open spec fn coordinate(&self, x: int, y: int) -> ComplexNumber {
        ComplexNumber { r: self.coords.0@[x], i: self.coords.1@[y] }
    }

    pub open spec fn cell(&self, x: int, y: int) -> (u32, ComplexNumber) {
        self.values@[y]@[x]
    }

    pub open spec fn pixel(&self, x: int, y: int) -> Pixel {
        self.pixels@[y]@[x]
    }

    /// Every cell holds the state of a fresh cell.
    pub open spec fn all_fresh(&self) -> bool {
        forall|x: int, y: int|
            0 <= x < self.width() && 0 <= y < self.height() ==> #[trigger] self.cell(x, y) == fresh()
    }

    /// Every pixel is opaque black.
    pub open spec fn all_black(&self) -> bool {
        forall|x: int, y: int|
            0 <= x < self.width() && 0 <= y < self.height() ==> #[trigger] self.pixel(x, y) == black()
    }

    /// What a cell holds after iterating it from `start` within the budget of `self`.
    pub open spec fn iterated(&self, x: int, y: int, start: (u32, ComplexNumber)) -> (
        nat,
        ComplexNumber,
    ) {
        escape(
            (start.0 as nat, start.1),
            self.coordinate(x, y),
            self.config.exponent as nat,
            self.iterations as nat,
        )
    }

    /// Each cell of `new` is the cell of `self` iterated, from its saved state
    /// where `resume` holds and from a fresh state elsewhere.
    pub open spec fn recalculated(&self, new: &Mandelbrot, resume: bool) -> bool {
        forall|x: int, y: int|
            0 <= x < self.width() && 0 <= y < self.height() ==> {
                let c = #[trigger] new.cell(x, y);
                (c.0 as nat, c.1) == self.iterated(
                    x,
                    y,
                    if resume {
                        self.cell(x, y)
                    } else {
                        fresh()
                    },
                )
            }
    }

    /// `m` is the largest count of the grid.
    pub open spec fn is_max_count(&self, m: u32) -> bool {
        &&& forall|x: int, y: int|
            0 <= x < self.width() && 0 <= y < self.height() ==> #[trigger] self.cell(x, y).0 <= m
        &&& exists|x: int, y: int|
            0 <= x < self.width() && 0 <= y < self.height() && #[trigger] self.cell(x, y).0 == m
    }

    /// Each pixel is the color of its cell under the configured scale.
    pub open spec fn colored(&self) -> bool {
        forall|x: int, y: int|
            0 <= x < self.width() && 0 <= y < self.height() ==> #[trigger] self.pixel(x, y)
                == color_of(
                self.config.color_fn,
                self.cell(x, y).0 as nat,
                self.cell(x, y).1,
                self.max_iterations as nat,
            )
    }

    /// `new` is `self` with configuration `config`: axes sampled anew, every cell
    /// fresh and every pixel black, budget and largest count kept.
    pub open spec fn reconfigured(&self, new: &Mandelbrot, config: MandelbrotConfig) -> bool {
        &&& new.wf()
        &&& new.config == config
        &&& new.all_fresh()
        &&& new.all_black()
        &&& new.iterations == self.iterations
        &&& new.max_iterations == self.max_iterations
    }
}

/// `g` has `h` rows of `w` cells.
pub open spec fn has_shape<T>(g: Seq<Vec<T>>, w: nat, h: nat) -> bool {
    g.len() == h && forall|y: int| 0 <= y < h ==> (#[trigger] g[y])@.len() == w
}

/// The largest count of a nonempty grid of `w × h` cells.
fn max_count(g: &Vec<Vec<(u32, ComplexNumber)>>, w: usize, h: usize) -> (m: u32)
    requires
        w >= 1,
        h >= 1,
        g@.len() == h,
        forall|y: int| 0 <= y < h ==> (#[trigger] g@[y])@.len() == w,
    ensures
        forall|x: int, y: int| 0 <= x < w && 0 <= y < h ==> #[trigger] g@[y]@[x].0 <= m,
        exists|x: int, y: int| 0 <= x < w && 0 <= y < h && #[trigger] g@[y]@[x].0 == m,
{
    let mut m: u32 = g[0][0].0;
    let ghost mut wx: int = 0;
    let ghost mut wy: int = 0;
    let mut y: usize = 0;
    while y < h
        invariant
            y <= h,
            g@.len() == h,
            forall|j: int| 0 <= j < h ==> (#[trigger] g@[j])@.len() == w,
            forall|x: int, j: int| 0 <= x < w && 0 <= j < y ==> #[trigger] g@[j]@[x].0 <= m,
            0 <= wx < w,
            0 <= wy < h,
            g@[wy]@[wx].0 == m,
        decreases h - y,
    {
        let row = &g[y];
        let mut x: usize = 0;
        while x < w
            invariant
                x <= w,
                y < h,
                *row == g@[y as int],
                row@.len() == w,
                forall|i: int, j: int| 0 <= i < w && 0 <= j < y ==> #[trigger] g@[j]@[i].0 <= m,
                forall|i: int| 0 <= i < x ==> #[trigger] row@[i].0 <= m,
                0 <= wx < w,
                0 <= wy < h,
                g@[wy]@[wx].0 == m,
            decreases w - x,
        {
            if row[x].0 > m {
                m = row[x].0;
                proof {
                    wx = x as int;
                    wy = y as int;
                }
            }
            x = x + 1;
        }
        y = y + 1;
    }
    m
}

/// A grid of `w × h` fresh cells.
fn fresh_grid(w: usize, h: usize) -> (g: Vec<Vec<(u32, ComplexNumber)>>)
    ensures
        g@.len() == h,
        forall|y: int| 0 <= y < h ==> (#[trigger] g@[y])@.len() == w,
        forall|x: int, y: int| 0 <= x < w && 0 <= y < h ==> #[trigger] g@[y]@[x] == fresh(),
{
    let mut g: Vec<Vec<(u32, ComplexNumber)>> = Vec::new();
    let mut y: usize = 0;
    while y < h
        invariant
            y <= h,
            g@.len() == y,
            forall|j: int| 0 <= j < y ==> (#[trigger] g@[j])@.len() == w,
            forall|x: int, j: int| 0 <= x < w && 0 <= j < y ==> #[trigger] g@[j]@[x] == fresh(),
        decreases h - y,
    {
        let mut row: Vec<(u32, ComplexNumber)> = Vec::new();
        let mut x: usize = 0;
        while x < w
            invariant
                x <= w,
                row@.len() == x,
                forall|i: int| 0 <= i < x ==> #[trigger] row@[i] == fresh(),
            decreases w - x,
        {
            row.push((0, ComplexNumber::new(0, 0)));
            x = x + 1;
        }
        g.push(row);
        y = y + 1;
    }
    g
}

/// A grid of `w × h` black pixels.
fn black_grid(w: usize, h: usize) -> (g: Vec<Vec<Pixel>>)
    ensures
        g@.len() == h,
        forall|y: int| 0 <= y < h ==> (#[trigger] g@[y])@.len() == w,
        forall|x: int, y: int| 0 <= x < w && 0 <= y < h ==> #[trigger] g@[y]@[x] == black(),
{
    let mut g: Vec<Vec<Pixel>> = Vec::new();
    let mut y: usize = 0;
    while y < h
        invariant
            y <= h,
            g@.len() == y,
            forall|j: int| 0 <= j < y ==> (#[trigger] g@[j])@.len() == w,
            forall|x: int, j: int| 0 <= x < w && 0 <= j < y ==> #[trigger] g@[j]@[x] == black(),
        decreases h - y,
    {
        let mut row: Vec<Pixel> = Vec::new();
        let mut x: usize = 0;
        while x < w
            invariant
                x <= w,
                row@.len() == x,
                forall|i: int| 0 <= i < x ==> #[trigger] row@[i] == black(),
            decreases w - x,
        {
            row.push(Pixel::default());
            x = x + 1;
        }
        g.push(row);
        y = y + 1;
    }
    g
}

impl Mandelbrot {
    /// An engine over `config` with iteration budget `max_iterations`; every cell
    /// fresh and every pixel black.
    pub fn new(config: MandelbrotConfig, max_iterations: u32) -> (m: Mandelbrot)
        requires
            config.wf(),
        ensures
            m.wf(),
            m.config == config,
            m.all_fresh(),
            m.all_black(),
            m.iterations == max_iterations,
            m.max_iterations == 0,
    {
        let w = config.dimensions.0 as usize;
        let h = config.dimensions.1 as usize;
        let coords = sample(&config.viewport, config.dimensions);
        Mandelbrot {
            config,
            pixels: black_grid(w, h),
            coords,
            values: fresh_grid(w, h),
            iterations: max_iterations,
            max_iterations: 0,
        }
    }

    /// A copy of the pixels, row by row.
    pub fn get_pixels(&self) -> (p: Vec<Vec<Pixel>>)
        ensures
            p@.len() == self.pixels@.len(),
            forall|y: int| 0 <= y < p@.len() ==> (#[trigger] p@[y])@ == self.pixels@[y]@,
    {
        let mut p: Vec<Vec<Pixel>> = Vec::new();
        let mut y: usize = 0;
        while y < self.pixels.len()
            invariant
                y <= self.pixels@.len(),
                p@.len() == y,
                forall|j: int| 0 <= j < y ==> (#[trigger] p@[j])@ == self.pixels@[j]@,
            decreases self.pixels@.len() - y,
        {
            let src = &self.pixels[y];
            let mut row: Vec<Pixel> = Vec::new();
            let mut x: usize = 0;
            while x < src.len()
                invariant
                    x <= src@.len(),
                    row@ == src@.take(x as int),
                decreases src@.len() - x,
            {
                row.push(src[x]);
                x = x + 1;
                assert(row@ =~= src@.take(x as int));
            }
            assert(row@ =~= src@);
            p.push(row);
            y = y + 1;
        }
        p
    }

    /// The sampled point of the cell in column `x` and row `y`; `None` outside the grid.
    pub fn get_xy_complex(&self, x: usize, y: usize) -> (c: Option<ComplexNumber>)
        requires
            self.wf(),
        ensures
            c == (if x < self.width() && y < self.height() {
                Some(self.coordinate(x as int, y as int))
            } else {
                None
            }),
    {
        if x < self.coords.0.len() && y < self.coords.1.len() {
            Some(ComplexNumber::new(self.coords.0[x], self.coords.1[y]))
        } else {
            None
        }
    }

    pub fn config(&self) -> (c: &MandelbrotConfig)
        ensures
            *c == self.config,
    {
        &self.config
    }

    /// The states of row `y` after iterating each of its cells within the budget,
    /// from its saved state where `resume` holds and from a fresh state elsewhere.
    pub fn compute_row(&self, y: usize, resume: bool) -> (row: Vec<(u32, ComplexNumber)>)
        requires
            self.wf(),
            y < self.height(),
        ensures
            row@.len() == self.width(),
            forall|x: int|
                0 <= x < self.width() ==> {
                    let c = #[trigger] row@[x];
                    (c.0 as nat, c.1) == self.iterated(
                        x,
                        y as int,
                        if resume {
                            self.cell(x, y as int)
                        } else {
                            fresh()
                        },
                    )
                },
    {
        let w = self.coords.0.len();
        let im = self.coords.1[y];
        let mut row: Vec<(u32, ComplexNumber)> = Vec::new();
        let mut x: usize = 0;
        while x < w
            invariant
                self.wf(),
                y < self.height(),
                w == self.width(),
                im == self.coords.1@[y as int],
                x <= w,
                row@.len() == x,
                forall|i: int|
                    0 <= i < x ==> {
                        let c = #[trigger] row@[i];
                        (c.0 as nat, c.1) == self.iterated(
                            i,
                            y as int,
                            if resume {
                                self.cell(i, y as int)
                            } else {
                                fresh()
                            },
                        )
                    },
            decreases w - x,
        {
            let start = if resume {
                self.values[y][x]
            } else {
                (0, ComplexNumber::new(0, 0))
            };
            let c = ComplexNumber::new(self.coords.0[x], im);
            row.push(iterate_coordinate(start, c, self.config.exponent, self.iterations));
            x = x + 1;
        }
        row
    }

    /// Every row computed by `compute_row`.
    fn compute_values(&self, resume: bool) -> (g: Vec<Vec<(u32, ComplexNumber)>>)
        requires
            self.wf(),
        ensures
            g@.len() == self.height(),
            forall|y: int| 0 <= y < self.height() ==> (#[trigger] g@[y])@.len() == self.width(),
            forall|x: int, y: int|
                0 <= x < self.width() && 0 <= y < self.height() ==> {
                    let c = #[trigger] g@[y]@[x];
                    (c.0 as nat, c.1) == self.iterated(
                        x,
                        y,
                        if resume {
                            self.cell(x, y)
                        } else {
                            fresh()
                        },
                    )
                },
    {
        let h = self.coords.1.len();
        let mut rows: Vec<Vec<(u32, ComplexNumber)>> = Vec::new();
        let mut y: usize = 0;
        while y < h
            invariant
                self.wf(),
                h == self.height(),
                y <= h,
                rows@.len() == y,
                forall|j: int| 0 <= j < y ==> (#[trigger] rows@[j])@.len() == self.width(),
                forall|x: int, j: int|
                    0 <= x < self.width() && 0 <= j < y ==> {
                        let c = #[trigger] rows@[j]@[x];
                        (c.0 as nat, c.1) == self.iterated(
                            x,
                            j,
                            if resume {
                                self.cell(x, j)
                            } else {
                                fresh()
                            },
                        )
                    },
            decreases h - y,
        {
            let row = self.compute_row(y, resume);
            rows.push(row);
            y = y + 1;
        }
        rows
    }

    /// Installs rows computed by `compute_row` (on any number of workers) as the
    /// states of the grid and records their largest count. Returns `false`, and
    /// changes nothing, where `rows` does not have the shape of the grid.
    pub fn install_values(&mut self, rows: Vec<Vec<(u32, ComplexNumber)>>) -> (ok: bool)
        requires
            old(self).wf(),
        ensures
            ok == has_shape(rows@, old(self).width(), old(self).height()),
            !ok ==> *final(self) == *old(self),
            ok ==> final(self).values == rows,
            ok ==> final(self).is_max_count(final(self).max_iterations),
            final(self).wf(),
            final(self).config == old(self).config,
            final(self).coords == old(self).coords,
            final(self).pixels == old(self).pixels,
            final(self).iterations == old(self).iterations,
    {
        let w = self.coords.0.len();
        let h = self.coords.1.len();
        if rows.len() != h {
            return false;
        }
        let mut y: usize = 0;
        while y < h
            invariant
                self.wf(),
                *self == *old(self),
                w == self.width(),
                h == self.height(),
                y <= h,
                rows@.len() == h,
                forall|j: int| 0 <= j < y ==> (#[trigger] rows@[j])@.len() == w,
            decreases h - y,
        {
            if rows[y].len() != w {
                return false;
            }
            y = y + 1;
        }
        let max = max_count(&rows, w, h);
        self.values = rows;
        self.max_iterations = max;
        proof {
            let (wx, wy) = choose|x: int, y: int|
                0 <= x < w && 0 <= y < h && #[trigger] rows@[y]@[x].0 == max;
            assert(self.cell(wx, wy).0 == max);
        }
        true
    }

    /// Iterates every cell within the budget: from its saved state where `resume`
    /// holds and from a fresh state elsewhere; then records the largest count.
    pub fn recalculate(&mut self, resume: bool)
        requires
            old(self).wf(),
        ensures
            final(self).wf(),
            final(self).config == old(self).config,
            final(self).coords == old(self).coords,
            final(self).pixels == old(self).pixels,
            final(self).iterations == old(self).iterations,
            old(self).recalculated(final(self), resume),
            final(self).is_max_count(final(self).max_iterations),
    {
        let values = self.compute_values(resume);
        let max = max_count(&values, self.coords.0.len(), self.coords.1.len());
        self.values = values;
        self.max_iterations = max;
        proof {
            let (wx, wy) = choose|x: int, y: int|
                0 <= x < self.width() && 0 <= y < self.height() && #[trigger] values@[y]@[x].0
                    == max;
            assert(self.cell(wx, wy).0 == max);
        }
    }

    /// The pixel of every cell under the configured scale.
    fn color_grid(&self) -> (g: Vec<Vec<Pixel>>)
        requires
            self.wf(),
        ensures
            g@.len() == self.height(),
            forall|y: int| 0 <= y < self.height() ==> (#[trigger] g@[y])@.len() == self.width(),
            forall|x: int, y: int|
                0 <= x < self.width() && 0 <= y < self.height() ==> #[trigger] g@[y]@[x]
                    == color_of(
                    self.config.color_fn,
                    self.cell(x, y).0 as nat,
                    self.cell(x, y).1,
                    self.max_iterations as nat,
                ),
    {
        let w = self.coords.0.len();
        let h = self.coords.1.len();
        let mut g: Vec<Vec<Pixel>> = Vec::new();
        let mut y: usize = 0;
        while y < h
            invariant
                self.wf(),
                w == self.width(),
                h == self.height(),
                y <= h,
                g@.len() == y,
                forall|j: int| 0 <= j < y ==> (#[trigger] g@[j])@.len() == w,
                forall|x: int, j: int|
                    0 <= x < w && 0 <= j < y ==> #[trigger] g@[j]@[x] == color_of(
                        self.config.color_fn,
                        self.cell(x, j).0 as nat,
                        self.cell(x, j).1,
                        self.max_iterations as nat,
                    ),
            decreases h - y,
        {
            let cells = &self.values[y];
            let mut row: Vec<Pixel> = Vec::new();
            let mut x: usize = 0;
            while x < w
                invariant
                    self.wf(),
                    w == self.width(),
                    y < h,
                    h == self.height(),
                    *cells == self.values@[y as int],
                    x <= w,
                    row@.len() == x,
                    forall|i: int|
                        0 <= i < x ==> #[trigger] row@[i] == color_of(
                            self.config.color_fn,
                            self.cell(i, y as int).0 as nat,
                            self.cell(i, y as int).1,
                            self.max_iterations as nat,
                        ),
                decreases w - x,
            {
                let (count, z) = cells[x];
                row.push(self.config.color_fn.pixel_color(count, z, self.max_iterations));
                x = x + 1;
            }
            g.push(row);
            y = y + 1;
        }
        g
    }

    /// Paints the Julia set of the sampled points: each pixel gets the color of
    /// its point's Julia iteration within `iterations` steps, measured against
    /// `iterations`. The iteration states stay.
    pub fn julia_set(&mut self, iterations: u32)
        requires
            old(self).wf(),
        ensures
            final(self).wf(),
            final(self).config == old(self).config,
            final(self).coords == old(self).coords,
            final(self).values == old(self).values,
            final(self).iterations == old(self).iterations,
            final(self).max_iterations == old(self).max_iterations,
            forall|x: int, y: int|
                0 <= x < final(self).width() && 0 <= y < final(self).height() ==> {
                    let (n, z) = julia_loop(
                        iterations as nat,
                        0,
                        old(self).coordinate(x, y),
                    );
                    #[trigger] final(self).pixel(x, y) == color_of(
                        old(self).config.color_fn,
                        n,
                        z,
                        iterations as nat,
                    )
                },
    {
        let w = self.coords.0.len();
        let h = self.coords.1.len();
        let mut g: Vec<Vec<Pixel>> = Vec::new();
        let mut y: usize = 0;
        while y < h
            invariant
                self.wf(),
                w == self.width(),
                h == self.height(),
                y <= h,
                g@.len() == y,
                forall|j: int| 0 <= j < y ==> (#[trigger] g@[j])@.len() == w,
                forall|x: int, j: int|
                    0 <= x < w && 0 <= j < y ==> {
                        let (n, z) = julia_loop(iterations as nat, 0, self.coordinate(x, j));
                        #[trigger] g@[j]@[x] == color_of(
                            self.config.color_fn,
                            n,
                            z,
                            iterations as nat,
                        )
                    },
            decreases h - y,
        {
            let im = self.coords.1[y];
            let mut row: Vec<Pixel> = Vec::new();
            let mut x: usize = 0;
            while x < w
                invariant
                    self.wf(),
                    w == self.width(),
                    y < h,
                    h == self.height(),
                    im == self.coords.1@[y as int],
                    x <= w,
                    row@.len() == x,
                    forall|i: int|
                        0 <= i < x ==> {
                            let (n, z) = julia_loop(
                                iterations as nat,
                                0,
                                self.coordinate(i, y as int),
                            );
                            #[trigger] row@[i] == color_of(
                                self.config.color_fn,
                                n,
                                z,
                                iterations as nat,
                            )
                        },
                decreases w - x,
            {
                let (n, z) = julia(self.coords.0[x], im, iterations);
                row.push(self.config.color_fn.pixel_color(n, z, iterations));
                x = x + 1;
            }
            g.push(row);
            y = y + 1;
        }
        self.pixels = g;
    }

    /// Colors every cell anew, without touching the iteration states.
    pub fn redraw(&mut self)
        requires
            old(self).wf(),
        ensures
            final(self).wf(),
            final(self).config == old(self).config,
            final(self).coords == old(self).coords,
            final(self).values == old(self).values,
            final(self).iterations == old(self).iterations,
            final(self).max_iterations == old(self).max_iterations,
            final(self).colored(),
    {
        let g = self.color_grid();
        self.pixels = g;
    }

    /// Sets the budget to `iters`, iterates every cell from a fresh state, and
    /// colors the result.
    pub fn run(&mut self, iters: u32)
        requires
            old(self).wf(),
        ensures
            final(self).wf(),
            final(self).config == old(self).config,
            final(self).coords == old(self).coords,
            final(self).iterations == iters,
            (Mandelbrot { iterations: iters, ..*old(self) }).recalculated(final(self), false),
            final(self).is_max_count(final(self).max_iterations),
            final(self).colored(),
    {
        self.iterations = iters;
        let ghost before = *self;
        assert(before == Mandelbrot { iterations: iters, ..*old(self) });
        self.recalculate(false);
        let ghost mid = *self;
        self.redraw();
        proof {
            let (wx, wy) = choose|x: int, y: int|
                0 <= x < mid.width() && 0 <= y < mid.height() && #[trigger] mid.cell(x, y).0
                    == mid.max_iterations;
            assert(self.cell(wx, wy) == mid.cell(wx, wy));
            assert forall|x: int, y: int| 0 <= x < self.width() && 0 <= y < self.height() implies #[trigger] self.cell(x, y) == mid.cell(x, y) by {}
        }
    }

    /// Fresh cells, black pixels, and a zero budget and largest count; the
    /// viewport and its axes stay.
    pub fn reset(&mut self)
        requires
            old(self).wf(),
        ensures
            final(self).wf(),
            final(self).config == old(self).config,
            final(self).coords == old(self).coords,
            final(self).all_fresh(),
            final(self).all_black(),
            final(self).iterations == 0,
            final(self).max_iterations == 0,
    {
        let w = self.coords.0.len();
        let h = self.coords.1.len();
        self.pixels = black_grid(w, h);
        self.values = fresh_grid(w, h);
        self.iterations = 0;
        self.max_iterations = 0;
    }

    /// Moves to `viewport`: the axes are sampled anew, every cell is fresh and
    /// every pixel black; the budget stays.
    pub fn update(&mut self, viewport: Viewport)
        requires
            old(self).wf(),
        ensures
            old(self).reconfigured(final(self), MandelbrotConfig { viewport, ..old(self).config }),
    {
        let w = self.config.dimensions.0 as usize;
        let h = self.config.dimensions.1 as usize;
        let coords = sample(&viewport, self.config.dimensions);
        self.config.viewport = viewport;
        self.coords = coords;
        self.pixels = black_grid(w, h);
        self.values = fresh_grid(w, h);
    }

    /// Applies the changes a host asks for. Where a corner coordinate is named the
    /// engine moves to the new viewport as `update` does; elsewhere the grids
    /// stay. A readable iteration count becomes the budget.
    pub fn update_settings(&mut self, settings: &GeneratorSettingsOld)
        requires
            old(self).wf(),
        ensures
            final(self).wf(),
            final(self).config == config_with(*settings, old(self).config),
            final(self).iterations == (match settings.iterations {
                Some(Ok(n)) => n,
                _ => old(self).iterations,
            }),
            final(self).max_iterations == old(self).max_iterations,
            moves_viewport(*settings) ==> final(self).all_fresh() && final(self).all_black(),
            !moves_viewport(*settings) ==> final(self).values == old(self).values
                && final(self).pixels == old(self).pixels,
    {
        if let Some(hue) = settings.hue {
            self.config.color_fn = ContinuousColorScale::get_color_fn_boxed(hue, 255, 255);
        }
        if let Some(exponent) = settings.exponent {
            self.config.exponent = exponent;
        }
        if let Some(Ok(iterations)) = settings.iterations {
            self.iterations = iterations;
        }
        if settings.x1.is_some() || settings.y1.is_some() || settings.x2.is_some()
            || settings.y2.is_some() {
            let mut viewport = self.config.viewport;
            viewport.top_left.r = read_into(settings.x1, viewport.top_left.r);
            viewport.top_left.i = read_into(settings.y1, viewport.top_left.i);
            viewport.bottom_right.r = read_into(settings.x2, viewport.bottom_right.r);
            viewport.bottom_right.i = read_into(settings.y2, viewport.bottom_right.i);
            self.update(viewport);
        }
    }

    /// Replaces the configuration, then moves to its viewport as `update` does.
    pub fn update_config(&mut self, config: MandelbrotConfig)
        requires
            old(self).wf(),
            config.wf(),
        ensures
            old(self).reconfigured(final(self), config),
    {
        let w = config.dimensions.0 as usize;
        let h = config.dimensions.1 as usize;
        let coords = sample(&config.viewport, config.dimensions);
        self.config = config;
        self.coords = coords;
        self.pixels = black_grid(w, h);
        self.values = fresh_grid(w, h);
    }
}

/// `v` with the value of `field` where it holds one.
pub open spec fn read_or(field: Option<Result<i64, ()>>, v: i64) -> i64 {
    match field {
        Some(Ok(x)) => x,
        _ => v,
    }
}

/// The viewport `settings` asks for, starting from `v`.
pub open spec fn viewport_with(settings: GeneratorSettingsOld, v: Viewport) -> Viewport {
    Viewport {
        top_left: ComplexNumber { r: read_or(settings.x1, v.top_left.r), i: read_or(settings.y1, v.top_left.i) },
        bottom_right: ComplexNumber {
            r: read_or(settings.x2, v.bottom_right.r),
            i: read_or(settings.y2, v.bottom_right.i),
        },
        ..v
    }
}

/// The configuration after `settings`: a hue selects the continuous scale at
/// full saturation and brightness, an exponent replaces the exponent, and any
/// given corner coordinate moves the viewport.
pub open spec fn config_with(settings: GeneratorSettingsOld, c: MandelbrotConfig) -> MandelbrotConfig {
    MandelbrotConfig {
        color_fn: match settings.hue {
            Some(hue) => ColorFn::Continuous { hue, sat: 255, val: 255, scale: 10 },
            None => c.color_fn,
        },
        exponent: match settings.exponent {
            Some(e) => e,
            None => c.exponent,
        },
        viewport: viewport_with(settings, c.viewport),
        ..c
    }
}

/// Whether `settings` names a corner coordinate.
pub open spec fn moves_viewport(settings: GeneratorSettingsOld) -> bool {
    settings.x1 is Some || settings.y1 is Some || settings.x2 is Some || settings.y2 is Some
}

fn read_into(field: Option<Result<i64, ()>>, v: i64) -> (r: i64)
    ensures
        r == read_or(field, v),
{
    match field {
        Some(Ok(x)) => x,
        _ => v,
    }
}

/// The step between two neighbouring samples, as `step_between` gives it.
fn xy_diff(neighbor1: i64, neighbor2: i64) -> (d: i128)
    ensures
        d == step_between(neighbor1 as int, neighbor2 as int),
        -0x1_0000_0000_0000_0000 <= d <= 0x1_0000_0000_0000_0000,
{
    let mut diff: i128 = if neighbor1 > neighbor2 {
        neighbor1 as i128 - neighbor2 as i128
    } else {
        neighbor2 as i128 - neighbor1 as i128
    };
    if neighbor1 < 0 || neighbor2 < 0 {
        diff = -diff;
    }
    diff
}

/// `resolve(s, idx)`, computed.
fn resolve_index(s: &Vec<i64>, idx: i64) -> (v: i64)
    requires
        s@.len() >= 1,
        -0x2_0000_0000 <= idx <= 0x2_0000_0000,
    ensures
        v == resolve(s@, idx as int),
{
    let n = s.len();
    if 0 <= idx && (idx as u64) < (n as u64) {
        s[idx as usize]
    } else if n == 1 {
        s[0]
    } else if idx < 0 {
        let step = xy_diff(s[0], s[1]);
        let k: i128 = -(idx as i128);
        proof {
            assert(-0x2_0000_0000_0000_0000_0000_0000 <= step * k <= 0x2_0000_0000_0000_0000_0000_0000)
                by (nonlinear_arith)
                requires
                    -0x1_0000_0000_0000_0000 <= step <= 0x1_0000_0000_0000_0000,
                    0 <= k <= 0x2_0000_0000,
            ;
        }
        fixed::clamp_wide(s[0] as i128 + step * k)
    } else {
        let step = xy_diff(s[n - 2], s[n - 1]);
        let k: i128 = idx as i128 - (n as i128 - 1);
        proof {
            assert(0 <= k <= 0x2_0000_0000);
            assert(-0x2_0000_0000_0000_0000_0000_0000 <= step * k <= 0x2_0000_0000_0000_0000_0000_0000)
                by (nonlinear_arith)
                requires
                    -0x1_0000_0000_0000_0000 <= step <= 0x1_0000_0000_0000_0000,
                    0 <= k <= 0x2_0000_0000,
            ;
        }
        fixed::clamp_wide(s[n - 1] as i128 + step * k)
    }
}

impl Mandelbrot {
    /// Zooms onto the square of the given radius around `center` (pixel
    /// coordinates): the box from `center - radius - 1` to `center + radius - 1`
    /// on both axes is mapped to the plane, extrapolating past the sampled axes,
    /// and becomes the new viewport, as `update` does. Returns its two corners.
    pub fn zoom(&mut self, center: (u32, u32), radius: u32) -> (r: (ComplexNumber, ComplexNumber))
        requires
            old(self).wf(),
        ensures
            r.0 == complex(
                resolve(old(self).coords.0@, center.0 - radius - 1),
                resolve(old(self).coords.1@, center.1 - radius - 1),
            ),
            r.1 == complex(
                resolve(old(self).coords.0@, center.0 + radius - 1),
                resolve(old(self).coords.1@, center.1 + radius - 1),
            ),
            old(self).reconfigured(
                final(self),
                MandelbrotConfig {
                    viewport: Viewport {
                        top_left: r.0,
                        bottom_right: r.1,
                        ..old(self).config.viewport
                    },
                    ..old(self).config
                },
            ),
    {
        let x1: i64 = center.0 as i64 - radius as i64 - 1;
        let y1: i64 = center.1 as i64 - radius as i64 - 1;
        let x2: i64 = center.0 as i64 + radius as i64 - 1;
        let y2: i64 = center.1 as i64 + radius as i64 - 1;

        let re1 = resolve_index(&self.coords.0, x1);
        let im1 = resolve_index(&self.coords.1, y1);
        let re2 = resolve_index(&self.coords.0, x2);
        let im2 = resolve_index(&self.coords.1, y2);

        let top_left = ComplexNumber::new(re1, im1);
        let bottom_right = ComplexNumber::new(re2, im2);
        let viewport = Viewport { top_left, bottom_right, ..self.config.viewport };
        self.update(viewport);
        (top_left, bottom_right)
    }
}

/// Whatever operations ran, the pixel grid has the configured shape: one row per
/// unit of height, each as long as the width.
pub proof fn lemma_grid_shape(m: &Mandelbrot)
    requires
        m.wf(),
    ensures
        m.pixels@.len() == m.config.dimensions.1,
        forall|y: int|
            0 <= y < m.config.dimensions.1 ==> (#[trigger] m.pixels@[y])@.len()
                == m.config.dimensions.0,
{
}

/// The first cell samples the viewport's top-left corner, and the last cell its
/// bottom-right corner (when the grid is at least two cells wide and high).
pub proof fn lemma_corners(m: &Mandelbrot)
    requires
        m.wf(),
    ensures
        m.coordinate(0, 0) == m.config.viewport.top_left,
        m.width() >= 2 && m.height() >= 2 ==> m.coordinate(m.width() - 1, m.height() - 1)
            == m.config.viewport.bottom_right,
{
    let v = m.config.viewport;
    lemma_sample_endpoints(v.top_left.r, v.bottom_right.r, m.width());
    lemma_sample_endpoints(v.top_left.i, v.bottom_right.i, m.height());
}

/// Resuming a recalculation is the same as starting over: a fresh pass with
/// budget `b1`, then a resumed pass with budget `b1 + b2`, leaves every cell as a
/// single fresh pass with budget `b1 + b2` does.
pub proof fn lemma_recalculate_resumes(
    start: &Mandelbrot,
    first: &Mandelbrot,
    resumed: &Mandelbrot,
    direct: &Mandelbrot,
    b2: u32,
)
    requires
        start.wf(),
        start.iterations + b2 <= u32::MAX,
        start.recalculated(first, false),
        first.config == start.config,
        first.coords == start.coords,
        (Mandelbrot { iterations: (start.iterations + b2) as u32, ..*first }).recalculated(
            resumed,
            true,
        ),
        (Mandelbrot { iterations: (start.iterations + b2) as u32, ..*start }).recalculated(
            direct,
            false,
        ),
    ensures
        forall|x: int, y: int|
            0 <= x < start.width() && 0 <= y < start.height() ==> #[trigger] resumed.cell(x, y)
                == direct.cell(x, y),
{
    let raised = Mandelbrot { iterations: (start.iterations + b2) as u32, ..*first };
    let again = Mandelbrot { iterations: (start.iterations + b2) as u32, ..*start };
    assert forall|x: int, y: int| 0 <= x < start.width() && 0 <= y < start.height() implies #[trigger] resumed.cell(
        x,
        y,
    ) == direct.cell(x, y) by {
        let c = start.coordinate(x, y);
        let e = start.config.exponent as nat;
        let b1 = start.iterations as nat;
        assert(first.cell(x, y) == raised.cell(x, y));
        assert(again.coordinate(x, y) == c);
        assert(raised.coordinate(x, y) == c);
        lemma_resume(c, e, b1, b2 as nat, complex(0, 0), complex(0, 0));
    }
}

} // verus!
