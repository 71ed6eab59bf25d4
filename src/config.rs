//! What an engine is built from.
use vstd::prelude::*;

use crate::color_scale::{ColorFn, ContinuousColorScale};
use crate::viewport::{default_viewport, Viewport};

verus! {

/// The settings of an engine.
#[derive(Debug, Clone, Copy, PartialEq, Eq)]
pub struct MandelbrotConfig {
    /// The pixel dimensions `(width, height)` of the grid; neither is zero
    pub dimensions: (u32, u32),
    /// The `Viewport` to cover
    pub viewport: Viewport,
    /// The coloring function
    pub color_fn: ColorFn,
    /// The exponent `e` of the recurrence `z := c + z^e`
    pub exponent: u32,
}

impl MandelbrotConfig {
    /// A configuration is usable when neither dimension is zero.
    pub open spec fn wf(&self) -> bool {
        self.dimensions.0 >= 1 && self.dimensions.1 >= 1
    }

    pub fn new(dimensions: (u32, u32), viewport: Viewport, exponent: u32, color_fn: ColorFn) -> (c:
        MandelbrotConfig)
        requires
            dimensions.0 >= 1,
            dimensions.1 >= 1,
        ensures
            c == (MandelbrotConfig { dimensions, viewport, color_fn, exponent }),
            c.wf(),
    {
        MandelbrotConfig { dimensions, viewport, color_fn, exponent }
    }

    pub fn with_dimensions(self, dimensions: (u32, u32)) -> (c: MandelbrotConfig)
        requires
            dimensions.0 >= 1,
            dimensions.1 >= 1,
        ensures
            c == (MandelbrotConfig { dimensions, ..self }),
    {
        MandelbrotConfig { dimensions, ..self }
    }

    pub fn with_viewport(self, viewport: Viewport) -> (c: MandelbrotConfig)
        ensures
            c == (MandelbrotConfig { viewport, ..self }),
    {
        MandelbrotConfig { viewport, ..self }
    }

    pub fn with_color_fn(self, color_fn: ColorFn) -> (c: MandelbrotConfig)
        ensures
            c == (MandelbrotConfig { color_fn, ..self }),
    {
        MandelbrotConfig { color_fn, ..self }
    }

    pub fn with_exponent(self, exponent: u32) -> (c: MandelbrotConfig)
        ensures
            c == (MandelbrotConfig { exponent, ..self }),
    {
        MandelbrotConfig { exponent, ..self }
    }
}

impl Default for MandelbrotConfig {
    /// A 500 × 500 grid over the default viewport, exponent 2, and the continuous
    /// scale at hue 200 with full saturation and brightness.
    fn default() -> (c: MandelbrotConfig)
        ensures
            c == (MandelbrotConfig {
                dimensions: (500, 500),
                viewport: default_viewport(),
                color_fn: ColorFn::Continuous { hue: 200, sat: 255, val: 255, scale: 10 },
                exponent: 2,
            }),
    {
        MandelbrotConfig::new(
            (500, 500),
            Viewport::default(),
            2,
            ContinuousColorScale::get_color_fn_boxed(200, 255, 255),
        )
    }
}

} // verus!
