//! A colour filter array laid over a grid of known size.

use vstd::prelude::*;
use crate::cfa::CFA;
use crate::color::Color;

verus! {

/// The colours of a sensor of `width` by `height` pixels.
#[derive(Debug, Clone, Copy)]
pub struct Pattern {
    pub cfa: CFA,
    pub width: u32,
    pub height: u32,
}

impl Pattern {
    /// The pattern of a sensor of `width` by `height` pixels behind `cfa`.
    pub fn new(cfa: CFA, width: u32, height: u32) -> (p: Self)
        ensures
            p.cfa == cfa,
            p.width == width,
            p.height == height,
    {
        Pattern { cfa, width, height }
    }

    /// The colour that the sensor samples at column `x`, row `y`.
    pub fn color_at_xy(&self, x: u32, y: u32) -> (c: Color)
        ensures
            c == self.cfa.color_of(x as int, y as int),
    {
        self.cfa.color_at(x, y)
    }

    /// The colour that the sensor samples at the pixel of index `i`, counted
    /// row by row.
    pub fn color_at(&self, i: u32) -> (c: Color)
        requires
            self.width > 0,
        ensures
            c == self.cfa.color_of(i as int % self.width as int, i as int / self.width as int),
    {
        self.cfa.color_at(i % self.width, i / self.width)
    }
}

} // verus!
