//! Settings that a host shows and edits.
use vstd::prelude::*;

use crate::config::MandelbrotConfig;
use crate::pixel::Pixel;

verus! {

/// An iteration budget with the range and step that an editor offers.
#[derive(Debug, Clone, Copy, PartialEq, Eq, Structural)]
pub struct Iterations {
    pub value: u32,
    pub min: u32,
    pub max: u32,
    pub step: u32,
}

impl Default for Iterations {
    /// 1000, in the range 1 to `u32::MAX`, step 1.
    fn default() -> (it: Iterations)
        ensures
            it == (Iterations { value: 1000, min: 1, max: u32::MAX, step: 1 }),
    {
        Iterations { value: 1000, min: 1, max: u32::MAX, step: 1 }
    }
}

impl Iterations {
    /// The default range and step, with the given value.
    pub fn from(value: u32) -> (it: Iterations)
        ensures
            it == (Iterations { value, min: 1, max: u32::MAX, step: 1 }),
    {
        Iterations { value, ..Default::default() }
    }
}

/// Changes that a host asks of an engine. A field left `None` changes nothing;
/// a corner coordinate given as `Some(Err(()))` could not be read, and leaves that
/// coordinate as it is while still moving the engine to its viewport.
#[derive(Debug, Clone, Copy, PartialEq, Eq)]
pub struct GeneratorSettingsOld {
    /// Hue of the continuous scale, in degrees
    pub hue: Option<u32>,
    pub width: Option<u32>,
    pub height: Option<u32>,
    /// Real part of the top-left corner, fixed-point
    pub x1: Option<Result<i64, ()>>,
    /// Imaginary part of the top-left corner, fixed-point
    pub y1: Option<Result<i64, ()>>,
    /// Real part of the bottom-right corner, fixed-point
    pub x2: Option<Result<i64, ()>>,
    /// Imaginary part of the bottom-right corner, fixed-point
    pub y2: Option<Result<i64, ()>>,
    pub exponent: Option<u32>,
    /// The iteration budget, where it could be read
    pub iterations: Option<Result<u32, ()>>,
}

/// Whether a computation is under way.
#[derive(Debug, Clone, Copy, PartialEq, Eq, Structural)]
pub struct LoadingEvent(pub bool);

/// The four channels of a color.
pub trait RgbaData {
    fn r(&self) -> u8;

    fn g(&self) -> u8;

    fn b(&self) -> u8;

    fn a(&self) -> u8;
}

/// A configuration type with an associated configuration.
pub trait GeneratorConfigOld {
    type C;
}

impl RgbaData for Pixel {
    fn r(&self) -> u8 {
        self.r
    }

    fn g(&self) -> u8 {
        self.g
    }

    fn b(&self) -> u8 {
        self.b
    }

    fn a(&self) -> u8 {
        self.a
    }
}

impl GeneratorConfigOld for MandelbrotConfig {
    type C = MandelbrotConfig;
}

} // verus!
