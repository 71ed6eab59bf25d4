//! An escape-time fractal engine over fixed-point coordinates.
//!
//! `viewport` samples a region of the complex plane onto a grid, `escape_time`
//! iterates each cell (resumably), `mandelbrot` drives the whole grid and zooms,
//! and `color_scale` turns iteration states into `pixel`s. Coordinates are
//! binary fixed-point numbers (`fixed`). `l_system`, `turtle_l_system` and
//! `hilbert_curve` hold the logic of the curve-drawing companions.
pub use pixel::flatten_array;

pub mod color_scale;
pub mod complex_number;
pub mod config;
pub mod escape_time;
pub mod fixed;
pub mod hilbert_curve;
pub mod l_system;
pub mod mandelbrot;
pub mod pixel;
pub mod settings;
pub mod turtle_l_system;
pub mod viewport;
