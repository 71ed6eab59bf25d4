//! Color scales: from the state of an escape-time iteration to a pixel.
use vstd::prelude::*;

use crate::complex_number::{nsq, ComplexNumber};
use crate::fixed;
use crate::pixel::{black, hsb, opaque, Pixel};
use vstd::arithmetic::power2::{lemma2_to64, lemma_pow2_adds, lemma_pow2_unfold, pow2};

verus! {

/// `⌊log2 x⌋`, and 0 for `x < 2`.
pub open spec fn log2_floor(x: nat) -> nat
    decreases x,
{
    if x < 2 {
        0
    } else {
        1 + log2_floor(x / 2)
    }
}

/// The correction `log2(log10 |z|)` of the smoothed count, in whole steps.
/// With `l = ⌊log2(r² + i²)⌋` over the raw parts, `q = (l − 96) / 2` is the whole
/// part of `log2 |z|`; the term is `⌊log2 q⌋`, and 0 where `q < 1`.
pub open spec fn log_log_term(z: ComplexNumber) -> nat {
    let l = log2_floor(nsq(z) as nat);
    if l >= 98 {
        log2_floor(((l - 96) / 2) as nat)
    } else {
        0
    }
}

/// The smoothed escape count `iterations + 1 − log2(log10 |z|)` in whole steps.
/// As `log10 |z| = log2 |z| / log2 10`, the correction `1 − log2(log10 |z|)` is
/// `1 + log2(log2 10) − log2(log2 |z|) ≈ 2.73 − log2 q`, taken as `3 − ⌊log2 q⌋`.
pub open spec fn smooth_count(iterations: nat, z: ComplexNumber) -> int {
    iterations + 3 - log_log_term(z)
}

/// The continuous scale: black where the point did not escape, else the hue
/// `hue + scale · smooth` (modulo 360) at the given saturation and brightness.
pub open spec fn continuous_color(
    iterations: nat,
    z: ComplexNumber,
    max_iterations: nat,
    hue: nat,
    sat: nat,
    val: nat,
    scale: nat,
) -> Pixel {
    if iterations == max_iterations {
        black()
    } else {
        hsb((hue + scale * smooth_count(iterations, z)) % 360, sat as int, val as int)
    }
}

/// The discrete scale: eight bands of the ratio `iterations / max_iterations`.
pub open spec fn discrete_color(iterations: nat, max_iterations: nat) -> Pixel {
    let i = 100 * iterations;
    let n = max_iterations;
    if i < 15 * n {
        opaque(255, 0, 0)
    } else if i < 30 * n {
        opaque(255, 255, 0)
    } else if i < 45 * n {
        opaque(0, 255, 0)
    } else if i < 60 * n {
        opaque(255, 255, 255)
    } else if i < 75 * n {
        opaque(255, 0, 255)
    } else if i < 80 * n {
        opaque(255, 0, 255)
    } else if i < 95 * n {
        opaque(255, 255, 255)
    } else {
        black()
    }
}

/// The simple scale: red where the point did not escape, black elsewhere.
pub open spec fn simple_color(iterations: nat, max_iterations: nat) -> Pixel {
    if iterations == max_iterations {
        opaque(255, 0, 0)
    } else {
        black()
    }
}

/// A color scale, chosen when the configuration is built.
#[derive(Debug, Clone, Copy, PartialEq, Eq, Structural)]
pub enum ColorFn {
    /// A smoothed hue; `hue` in degrees, `sat` and `val` as fractions of 255.
    Continuous { hue: u32, sat: u8, val: u8, scale: u32 },
    /// Eight fixed bands of the iteration ratio.
    Discrete,
    /// Two colors: not escaped, escaped.
    Simple,
}

/// The color that a scale gives to an iteration state.
pub open spec fn color_of(f: ColorFn, iterations: nat, z: ComplexNumber, max_iterations: nat) -> Pixel {
    match f {
        ColorFn::Continuous { hue, sat, val, scale } => continuous_color(
            iterations,
            z,
            max_iterations,
            hue as nat,
            sat as nat,
            val as nat,
            scale as nat,
        ),
        ColorFn::Discrete => discrete_color(iterations, max_iterations),
        ColorFn::Simple => simple_color(iterations, max_iterations),
    }
}

proof fn lemma_log2_floor_below(x: nat, n: nat)
    requires
        n >= 1,
        x < pow2(n),
    ensures
        log2_floor(x) < n,
    decreases n,
{
    lemma_pow2_unfold(n);
    if x >= 2 {
        if n == 1 {
            lemma2_to64();
        } else {
            lemma_log2_floor_below(x / 2, (n - 1) as nat);
        }
    }
}

/// `⌊log2 x⌋`, and 0 for `x < 2`.
pub fn log2_floor_exec(x: u128) -> (r: u32)
    ensures
        r == log2_floor(x as nat),
        r < 128,
{
    proof {
        lemma2_to64();
        lemma_pow2_adds(64, 64);
        lemma_log2_floor_below(x as nat, 128);
    }
    let mut y = x;
    let mut k: u32 = 0;
    while y >= 2
        invariant
            k + log2_floor(y as nat) == log2_floor(x as nat),
            log2_floor(x as nat) < 128,
        decreases y,
    {
        y = y / 2;
        k = k + 1;
    }
    k
}

proof fn lemma_log_log_term_small(z: ComplexNumber)
    ensures
        log_log_term(z) <= 3,
{
    fixed::lemma_mul_bound(z.r as int, z.r as int, 0x8000_0000_0000_0000);
    fixed::lemma_mul_bound(z.i as int, z.i as int, 0x8000_0000_0000_0000);
    assert(0 <= z.r * z.r) by (nonlinear_arith);
    assert(0 <= z.i * z.i) by (nonlinear_arith);
    lemma2_to64();
    lemma_pow2_adds(64, 64);
    lemma_log2_floor_below(nsq(z) as nat, 128);
    let l = log2_floor(nsq(z) as nat);
    if l >= 98 {
        lemma_log2_floor_below(((l - 96) / 2) as nat, 4);
    }
}

/// The raw squared magnitude `r² + i²`, exactly.
fn raw_norm(z: ComplexNumber) -> (n: u128)
    ensures
        n == nsq(z),
{
    proof {
        fixed::lemma_mul_bound(z.r as int, z.r as int, 0x8000_0000_0000_0000);
        fixed::lemma_mul_bound(z.i as int, z.i as int, 0x8000_0000_0000_0000);
        assert(0 <= z.r * z.r) by (nonlinear_arith);
        assert(0 <= z.i * z.i) by (nonlinear_arith);
    }
    ((z.r as i128) * (z.r as i128)) as u128 + ((z.i as i128) * (z.i as i128)) as u128
}

/// The smoothed-count correction `log_log_term`, computed.
fn log_log_term_exec(z: ComplexNumber) -> (t: u32)
    ensures
        t == log_log_term(z),
        t <= 3,
{
    let l = log2_floor_exec(raw_norm(z));
    if l >= 98 {
        let q: u32 = (l - 96) / 2;
        proof {
            lemma2_to64();
            lemma_log2_floor_below(q as nat, 4);
        }
        log2_floor_exec(q as u128)
    } else {
        0
    }
}

/// The smoothed continuous color scale, with its default parameters.
pub struct ContinuousColorScale {}

impl ContinuousColorScale {
    /// Hue 201°, saturation 204/255, full brightness, scale 10.
    pub fn pixel_color(iters_to_escape: u32, ending_point: ComplexNumber, num_iterations: u32) -> (p:
        Pixel)
        ensures
            p == continuous_color(
                iters_to_escape as nat,
                ending_point,
                num_iterations as nat,
                201,
                204,
                255,
                10,
            ),
    {
        Self::pixel_color_gen(iters_to_escape, ending_point, num_iterations, 201, 204, 255, 10)
    }

    /// The continuous scale with the given parameters.
    pub fn pixel_color_gen(
        iters_to_escape: u32,
        ending_point: ComplexNumber,
        num_iterations: u32,
        hue: u32,
        sat: u8,
        val: u8,
        scale: u32,
    ) -> (p: Pixel)
        ensures
            p == continuous_color(
                iters_to_escape as nat,
                ending_point,
                num_iterations as nat,
                hue as nat,
                sat as nat,
                val as nat,
                scale as nat,
            ),
    {
        if iters_to_escape == num_iterations {
            return Pixel::new(0, 0, 0);
        }
        let smooth: u64 = iters_to_escape as u64 + 3 - log_log_term_exec(ending_point) as u64;
        proof {
            assert(scale * smooth <= 0xffff_ffff * 0x1_0000_0003) by (nonlinear_arith)
                requires
                    scale <= 0xffff_ffff,
                    smooth <= 0x1_0000_0003,
            ;
        }
        let total: u128 = hue as u128 + (scale as u128) * (smooth as u128);
        Pixel::from_hsb((total % 360) as u32, sat, val)
    }

    /// The continuous scale with the given hue, saturation and brightness, and scale 10.
    pub fn get_color_fn(hue: u32, sat: u8, val: u8) -> (f: ColorFn)
        ensures
            f == (ColorFn::Continuous { hue, sat, val, scale: 10 }),
    {
        ColorFn::Continuous { hue, sat, val, scale: 10 }
    }

    /// Same as `get_color_fn`: a scale is held by value.
    pub fn get_color_fn_boxed(hue: u32, sat: u8, val: u8) -> (f: ColorFn)
        ensures
            f == (ColorFn::Continuous { hue, sat, val, scale: 10 }),
    {
        Self::get_color_fn(hue, sat, val)
    }
}

/// The banded color scale.
pub struct DiscreteColorScale {}

impl DiscreteColorScale {
    pub fn pixel_color(iters_to_escape: u32, _ending_point: ComplexNumber, max_iterations: u32) -> (p:
        Pixel)
        ensures
            p == discrete_color(iters_to_escape as nat, max_iterations as nat),
    {
        let i: u64 = 100 * iters_to_escape as u64;
        let n: u64 = max_iterations as u64;
        if i < 15 * n {
            Pixel::new(255, 0, 0)
        } else if i < 30 * n {
            Pixel::new(255, 255, 0)
        } else if i < 45 * n {
            Pixel::new(0, 255, 0)
        } else if i < 60 * n {
            Pixel::new(255, 255, 255)
        } else if i < 75 * n {
            Pixel::new(255, 0, 255)
        } else if i < 80 * n {
            Pixel::new(255, 0, 255)
        } else if i < 95 * n {
            Pixel::new(255, 255, 255)
        } else {
            Pixel::new(0, 0, 0)
        }
    }
}

/// The two-color scale.
pub struct SimpleColorScale {}

impl SimpleColorScale {
    pub fn pixel_color(iters_to_escape: u32, _ending_point: ComplexNumber, max_iterations: u32) -> (p:
        Pixel)
        ensures
            p == simple_color(iters_to_escape as nat, max_iterations as nat),
    {
        if iters_to_escape == max_iterations {
            Pixel::new(255, 0, 0)
        } else {
            Pixel::new(0, 0, 0)
        }
    }
}

impl ColorFn {
    /// The color of an iteration state under this scale.
    pub fn pixel_color(&self, iters_to_escape: u32, ending_point: ComplexNumber, max_iterations: u32) -> (p:
        Pixel)
        ensures
            p == color_of(*self, iters_to_escape as nat, ending_point, max_iterations as nat),
    {
        match self {
            ColorFn::Continuous { hue, sat, val, scale } => ContinuousColorScale::pixel_color_gen(
                iters_to_escape,
                ending_point,
                max_iterations,
                *hue,
                *sat,
                *val,
                *scale,
            ),
            ColorFn::Discrete => DiscreteColorScale::pixel_color(
                iters_to_escape,
                ending_point,
                max_iterations,
            ),
            ColorFn::Simple => SimpleColorScale::pixel_color(
                iters_to_escape,
                ending_point,
                max_iterations,
            ),
        }
    }
}

/// The continuous scale paints a pixel opaque black exactly where the iteration
/// count equals the budget, whenever its brightness is not zero.
pub proof fn lemma_continuous_black_iff_interior(
    iterations: nat,
    z: ComplexNumber,
    max_iterations: nat,
    hue: nat,
    sat: nat,
    val: nat,
    scale: nat,
)
    requires
        sat <= 255,
        0 < val <= 255,
    ensures
        (continuous_color(iterations, z, max_iterations, hue, sat, val, scale) == black()) <==> (
        iterations == max_iterations),
{
    if iterations != max_iterations {
        let s = smooth_count(iterations, z);
        lemma_log_log_term_small(z);
        assert(hue + scale * s >= 0) by (nonlinear_arith)
            requires
                s >= 0,
        ;
        crate::pixel::lemma_hsb_brightness((hue + scale * s) % 360, sat as int, val as int);
    }
}

proof fn lemma_same_ratio_below(i1: nat, n1: nat, i2: nat, n2: nat, k: nat)
    requires
        n1 > 0,
        n2 > 0,
        i1 * n2 == i2 * n1,
    ensures
        (100 * i1 < k * n1) <==> (100 * i2 < k * n2),
{
    assert((100 * i1 < k * n1) <==> (100 * i1 * n2 < k * n1 * n2)) by (nonlinear_arith)
        requires
            n2 > 0,
    ;
    assert((100 * i2 < k * n2) <==> (100 * i2 * n1 < k * n2 * n1)) by (nonlinear_arith)
        requires
            n1 > 0,
    ;
    assert(100 * i1 * n2 == 100 * i2 * n1) by (nonlinear_arith)
        requires
            i1 * n2 == i2 * n1,
    ;
    assert(k * n1 * n2 == k * n2 * n1) by (nonlinear_arith);
}

/// The discrete and simple scales depend on the ratio `iterations / max_iterations`
/// alone: two states with the same ratio get the same color, whatever their final values.
pub proof fn lemma_banded_scales_depend_on_ratio(
    i1: nat,
    n1: nat,
    z1: ComplexNumber,
    i2: nat,
    n2: nat,
    z2: ComplexNumber,
)
    requires
        n1 > 0,
        n2 > 0,
        i1 * n2 == i2 * n1,
    ensures
        color_of(ColorFn::Discrete, i1, z1, n1) == color_of(ColorFn::Discrete, i2, z2, n2),
        color_of(ColorFn::Simple, i1, z1, n1) == color_of(ColorFn::Simple, i2, z2, n2),
{
    lemma_same_ratio_below(i1, n1, i2, n2, 15);
    lemma_same_ratio_below(i1, n1, i2, n2, 30);
    lemma_same_ratio_below(i1, n1, i2, n2, 45);
    lemma_same_ratio_below(i1, n1, i2, n2, 60);
    lemma_same_ratio_below(i1, n1, i2, n2, 75);
    lemma_same_ratio_below(i1, n1, i2, n2, 80);
    lemma_same_ratio_below(i1, n1, i2, n2, 95);
    assert((i1 == n1) <==> (i2 == n2)) by (nonlinear_arith)
        requires
            n1 > 0,
            n2 > 0,
            i1 * n2 == i2 * n1,
    ;
}

} // verus!
