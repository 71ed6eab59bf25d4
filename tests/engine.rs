use mandelbrot::color_scale::{ColorFn, ContinuousColorScale, DiscreteColorScale, SimpleColorScale};
use mandelbrot::complex_number::ComplexNumber;
use mandelbrot::config::MandelbrotConfig;
use mandelbrot::escape_time::{iterate_coordinate, julia};
use mandelbrot::fixed::{from_int, from_ratio};
use mandelbrot::flatten_array;
use mandelbrot::mandelbrot::Mandelbrot;
use mandelbrot::pixel::Pixel;
use mandelbrot::settings::GeneratorSettingsOld;
use mandelbrot::viewport::{sample, sample_axis, Viewport};

fn c(r: i64, i: i64) -> ComplexNumber {
    ComplexNumber::new(from_int(r), from_int(i))
}

fn grid_viewport() -> Viewport {
    Viewport { top_left: c(0, 4), bottom_right: c(4, 0), width: from_int(5), height: from_int(5) }
}

fn engine(dimensions: (u32, u32), viewport: Viewport, color_fn: ColorFn) -> Mandelbrot {
    Mandelbrot::new(MandelbrotConfig::new(dimensions, viewport, 2, color_fn), 10)
}

fn black() -> Pixel {
    Pixel::new(0, 0, 0)
}

#[test]
fn sampling_spans_both_corners() {
    let s = sample_axis(from_int(-2), from_ratio(1, 2), 6);
    assert_eq!(s.len(), 6);
    assert_eq!(s[0], from_int(-2));
    assert_eq!(s[5], from_ratio(1, 2));
    assert_eq!(s[1], from_int(-2) + from_ratio(1, 2));
    assert_eq!(sample_axis(from_int(3), from_int(9), 1), vec![from_int(3)]);
    assert_eq!(sample_axis(7, 7, 3), vec![7, 7, 7]);
    let (re, im) = sample(&grid_viewport(), (5, 3));
    assert_eq!(re, vec![0, from_int(1), from_int(2), from_int(3), from_int(4)]);
    assert_eq!(im, vec![from_int(4), from_int(2), 0]);
}

#[test]
fn escape_outside_radius() {
    for budget in [1u32, 2, 100] {
        let r = iterate_coordinate((0, c(0, 0)), c(5, 0), 2, budget);
        assert_eq!(r, (0, c(5, 0)));
    }
}

#[test]
fn fixed_point_never_escapes() {
    let r = iterate_coordinate((0, c(0, 0)), c(0, 0), 2, 10);
    assert_eq!(r, (10, c(0, 0)));
}

#[test]
fn escape_counts_steps() {
    // z0 = 1, z1 = 1 + 1 = 2, z2 = 1 + 4 = 5 escapes
    let r = iterate_coordinate((0, c(0, 0)), c(1, 0), 2, 50);
    assert_eq!(r, (2, c(5, 0)));
    // exponent 3: z0 = 1, z1 = 2, z2 = 9
    let r = iterate_coordinate((0, c(0, 0)), c(1, 0), 3, 50);
    assert_eq!(r, (2, c(9, 0)));
}

#[test]
fn resuming_matches_a_single_run() {
    let point = ComplexNumber::new(from_ratio(-3, 4), from_ratio(1, 10));
    let first = iterate_coordinate((0, c(0, 0)), point, 2, 7);
    let resumed = iterate_coordinate(first, point, 2, 19);
    let direct = iterate_coordinate((0, c(0, 0)), point, 2, 19);
    assert_eq!(resumed, direct);

    let vp = Viewport {
        top_left: ComplexNumber::new(from_int(-2), from_ratio(115, 100)),
        bottom_right: ComplexNumber::new(from_ratio(1, 2), from_ratio(-115, 100)),
        width: from_int(8),
        height: from_int(6),
    };
    let mut m = engine((8, 6), vp, ColorFn::Simple);
    m.run(3);
    m.iterations = 9;
    m.recalculate(true);
    let mut n = engine((8, 6), vp, ColorFn::Simple);
    n.run(9);
    assert_eq!(m.values, n.values);
}

#[test]
fn run_counts_and_colors_every_cell() {
    let vp = Viewport { top_left: c(0, 0), bottom_right: c(3, 0), width: 4, height: 1 };
    let mut m = engine((4, 1), vp, ColorFn::Simple);
    m.run(10);
    // 0 never escapes; 1 escapes after two steps; 2 after one; 3 at once
    let counts: Vec<u32> = m.values[0].iter().map(|v| v.0).collect();
    assert_eq!(counts, vec![10, 2, 1, 0]);
    assert_eq!(m.max_iterations, 10);
    let red = Pixel::new(255, 0, 0);
    assert_eq!(m.get_pixels(), vec![vec![red, black(), black(), black()]]);

    m.recalculate(false);
    assert_eq!(m.max_iterations, 10);
    m.redraw();
    assert_eq!(m.get_pixels()[0][0], red);
}

#[test]
fn largest_count_is_taken_over_the_new_pass() {
    let vp = Viewport { top_left: c(2, 0), bottom_right: c(3, 0), width: 2, height: 1 };
    let mut m = engine((2, 1), vp, ColorFn::Discrete);
    m.run(10);
    assert_eq!(m.max_iterations, 1);
    m.reset();
    assert_eq!(m.max_iterations, 0);
    assert_eq!(m.iterations, 0);
    assert_eq!(m.values, vec![vec![(0, c(0, 0)); 2]]);
    assert_eq!(m.get_pixels(), vec![vec![black(); 2]]);
}

#[test]
fn corners_resolve_to_the_viewport() {
    let mut m = engine((5, 5), grid_viewport(), ColorFn::Simple);
    assert_eq!(m.get_xy_complex(0, 0), Some(c(0, 4)));
    assert_eq!(m.get_xy_complex(4, 4), Some(c(4, 0)));
    assert_eq!(m.get_xy_complex(5, 0), None);
    assert_eq!(m.get_xy_complex(0, 5), None);
    let vp = Viewport { top_left: c(-1, 1), bottom_right: c(1, -1), ..grid_viewport() };
    m.update(vp);
    assert_eq!(m.get_xy_complex(0, 0), Some(c(-1, 1)));
    assert_eq!(m.get_xy_complex(4, 4), Some(c(1, -1)));
    assert_eq!(m.get_xy_complex(2, 2), Some(c(0, 0)));
}

#[test]
fn zoom_inside_the_grid() {
    let mut m = engine((5, 5), grid_viewport(), ColorFn::Simple);
    m.run(4);
    let (tl, br) = m.zoom((2, 2), 1);
    assert_eq!(tl, c(0, 4));
    assert_eq!(br, c(2, 2));
    assert_eq!(m.config().viewport.top_left, tl);
    assert_eq!(m.config().viewport.bottom_right, br);
    assert_eq!(m.config().viewport.width, from_int(5));
    assert_eq!(m.iterations, 4);
    assert_eq!(m.get_xy_complex(4, 4), Some(c(2, 2)));
    assert_eq!(m.get_pixels(), vec![vec![black(); 5]; 5]);
}

#[test]
fn zoom_extrapolates_past_the_axes() {
    let mut m = engine((5, 5), grid_viewport(), ColorFn::Simple);
    // box from -3 to 1 on both axes
    let (tl, br) = m.zoom((0, 0), 2);
    assert_eq!(tl, c(3, 7));
    assert_eq!(br, c(1, 3));

    let vp = Viewport { top_left: c(-4, 0), bottom_right: c(0, 4), ..grid_viewport() };
    let mut m = engine((5, 5), vp, ColorFn::Simple);
    // box from -1 to 5: the step is negated where a sample is negative
    let (tl, br) = m.zoom((3, 3), 3);
    assert_eq!(tl, c(-5, 1));
    assert_eq!(br, c(-1, 5));
}

#[test]
fn zoom_on_a_single_column() {
    let vp = Viewport { top_left: c(1, 1), bottom_right: c(2, -1), ..grid_viewport() };
    let mut m = engine((1, 3), vp, ColorFn::Simple);
    let (tl, br) = m.zoom((0, 1), 2);
    assert_eq!(tl.r, from_int(1));
    assert_eq!(br.r, from_int(1));
}

#[test]
fn grid_keeps_its_shape() {
    let mut m = engine((7, 3), grid_viewport(), ColorFn::Discrete);
    let shape = |m: &Mandelbrot| {
        let p = m.get_pixels();
        (p.len(), p.iter().all(|row| row.len() == 7))
    };
    m.run(5);
    assert_eq!(shape(&m), (3, true));
    m.zoom((6, 2), 4);
    assert_eq!(shape(&m), (3, true));
    m.recalculate(true);
    m.redraw();
    assert_eq!(shape(&m), (3, true));
    m.reset();
    assert_eq!(shape(&m), (3, true));
    m.update(grid_viewport());
    assert_eq!(shape(&m), (3, true));
    m.update_config(MandelbrotConfig::default().with_dimensions((2, 9)));
    let p = m.get_pixels();
    assert_eq!(p.len(), 9);
    assert!(p.iter().all(|row| row.len() == 2));
}

#[test]
fn continuous_scale_is_black_only_inside() {
    let z = c(3, 0);
    assert_eq!(ContinuousColorScale::pixel_color(10, z, 10), black());
    assert_ne!(ContinuousColorScale::pixel_color(9, z, 10), black());
    assert_ne!(ContinuousColorScale::pixel_color(0, c(0, 0), 10), black());
    // |z| = 3: q = 1, no correction; smooth = 9 + 3 = 12, hue = 120 + 10 * 12 = 240: blue
    let p = ContinuousColorScale::pixel_color_gen(9, z, 10, 120, 255, 255, 10);
    assert_eq!(p, Pixel::new(0, 0, 255));
    // |z| = 16: q = 4, correction 2; smooth = 1, hue = 0: red
    let p = ContinuousColorScale::pixel_color_gen(0, c(16, 0), 10, 350, 255, 255, 10);
    assert_eq!(p, Pixel::new(255, 0, 0));
    assert_eq!(
        ContinuousColorScale::get_color_fn(200, 255, 255),
        ColorFn::Continuous { hue: 200, sat: 255, val: 255, scale: 10 }
    );
}

#[test]
fn discrete_scale_bands() {
    let z = c(0, 0);
    let p = |i: u32| DiscreteColorScale::pixel_color(i, z, 100);
    assert_eq!(p(0), Pixel::new(255, 0, 0));
    assert_eq!(p(14), Pixel::new(255, 0, 0));
    assert_eq!(p(15), Pixel::new(255, 255, 0));
    assert_eq!(p(30), Pixel::new(0, 255, 0));
    assert_eq!(p(45), Pixel::new(255, 255, 255));
    assert_eq!(p(60), Pixel::new(255, 0, 255));
    assert_eq!(p(79), Pixel::new(255, 0, 255));
    assert_eq!(p(80), Pixel::new(255, 255, 255));
    assert_eq!(p(95), black());
    assert_eq!(p(100), black());
    // the same ratio gives the same band
    assert_eq!(DiscreteColorScale::pixel_color(3, z, 10), DiscreteColorScale::pixel_color(30, c(9, 9), 100));
    assert_eq!(p(50), p(50));
    // an empty budget
    assert_eq!(DiscreteColorScale::pixel_color(0, z, 0), black());
}

#[test]
fn simple_scale() {
    let z = c(0, 0);
    assert_eq!(SimpleColorScale::pixel_color(5, z, 5), Pixel::new(255, 0, 0));
    assert_eq!(SimpleColorScale::pixel_color(4, z, 5), black());
    assert_eq!(ColorFn::Simple.pixel_color(5, z, 5), Pixel::new(255, 0, 0));
}

#[test]
fn pixels_and_bytes() {
    assert_eq!(Pixel::default(), black());
    assert_eq!(black().a, 255);
    assert_eq!(Pixel::from_hsb(0, 255, 255), Pixel::new(255, 0, 0));
    assert_eq!(Pixel::from_hsb(120, 255, 255), Pixel::new(0, 255, 0));
    assert_eq!(Pixel::from_hsb(600, 255, 255), Pixel::new(0, 0, 255));
    assert_eq!(Pixel::from_hsb(60, 255, 255), Pixel::new(255, 255, 0));
    assert_eq!(Pixel::from_hsb(30, 0, 200), Pixel::new(200, 200, 200));
    let a = Pixel::new(1, 2, 3);
    let b = Pixel { r: 4, g: 5, b: 6, a: 7 };
    assert_eq!(b.to_bytes(), [4, 5, 6, 7]);
    assert_eq!(flatten_array(vec![vec![a, b], vec![b]]), vec![1, 2, 3, 255, 4, 5, 6, 7, 4, 5, 6, 7]);
}

#[test]
fn default_configuration() {
    let config = MandelbrotConfig::default();
    assert_eq!(config.dimensions, (500, 500));
    assert_eq!(config.exponent, 2);
    let vp = Viewport::default();
    assert_eq!(vp.top_left, ComplexNumber::new(from_int(-2), from_ratio(115, 100)));
    assert_eq!(vp.bottom_right, ComplexNumber::new(from_ratio(1, 2), from_ratio(-115, 100)));
    assert_eq!(config.viewport, vp);
    let vp2 = vp.with_size(1, 2).with_top_left(c(1, 1)).with_bottom_right(c(2, 2));
    assert_eq!(vp2, Viewport { top_left: c(1, 1), bottom_right: c(2, 2), width: 1, height: 2 });
    let config = config.with_exponent(3).with_color_fn(ColorFn::Simple).with_viewport(vp2);
    assert_eq!(config.exponent, 3);
    assert_eq!(config.color_fn, ColorFn::Simple);
    assert_eq!(config.viewport, vp2);
}

#[test]
fn julia_iteration_and_set() {
    assert_eq!(julia(from_int(6), 0, 10), (0, c(6, 0)));
    assert_eq!(julia(0, 0, 0), (0, c(0, 0)));
    let k = ComplexNumber::new(from_ratio(38, 100), from_ratio(28, 100));
    assert_eq!(julia(0, 0, 1), (1, k));
    let vp = Viewport { top_left: c(0, 0), bottom_right: c(6, 0), width: 2, height: 1 };
    let mut m = engine((2, 1), vp, ColorFn::Simple);
    m.julia_set(3);
    assert_eq!(m.get_pixels(), vec![vec![Pixel::new(255, 0, 0), black()]]);
}

#[test]
fn rows_computed_apart_install_as_a_pass() {
    let vp = Viewport { top_left: c(0, 1), bottom_right: c(3, 0), width: 4, height: 2 };
    let mut m = engine((4, 2), vp, ColorFn::Simple);
    let rows = vec![m.compute_row(0, false), m.compute_row(1, false)];
    assert!(m.install_values(rows));
    let mut n = engine((4, 2), vp, ColorFn::Simple);
    n.recalculate(false);
    assert_eq!(m.values, n.values);
    assert_eq!(m.max_iterations, n.max_iterations);
    let before = m.values.clone();
    assert!(!m.install_values(vec![m.compute_row(0, true)]));
    assert!(!m.install_values(vec![vec![(0, c(0, 0))], vec![(0, c(0, 0))]]));
    assert_eq!(m.values, before);
}

#[test]
fn settings_update_the_engine() {
    let mut m = engine((5, 5), grid_viewport(), ColorFn::Simple);
    m.run(4);
    let unchanged = GeneratorSettingsOld {
        hue: None,
        width: None,
        height: None,
        x1: None,
        y1: None,
        x2: None,
        y2: None,
        exponent: None,
        iterations: Some(Err(())),
    };
    let values = m.values.clone();
    let pixels = m.get_pixels();
    m.update_settings(&unchanged);
    assert_eq!(m.values, values);
    assert_eq!(m.get_pixels(), pixels);
    assert_eq!(m.iterations, 4);

    let settings = GeneratorSettingsOld {
        hue: Some(30),
        x1: Some(Ok(from_int(-1))),
        y1: Some(Err(())),
        exponent: Some(3),
        iterations: Some(Ok(7)),
        ..unchanged
    };
    m.update_settings(&settings);
    assert_eq!(m.config().color_fn, ColorFn::Continuous { hue: 30, sat: 255, val: 255, scale: 10 });
    assert_eq!(m.config().exponent, 3);
    assert_eq!(m.config().viewport.top_left, c(-1, 4));
    assert_eq!(m.config().viewport.bottom_right, c(4, 0));
    assert_eq!(m.iterations, 7);
    assert_eq!(m.get_xy_complex(0, 0), Some(c(-1, 4)));
    assert_eq!(m.get_pixels(), vec![vec![black(); 5]; 5]);
}
