//! Colour filter array layouts.

use vstd::prelude::*;
use crate::color::Color;

verus! {

/// A mosaic layout: which colour the sensor samples at which position.
#[derive(Debug, Clone, Copy, PartialEq, Eq, Structural)]
pub enum CFA {
    /// A 2x2 tile, repeated over the whole sensor:
    ///
    /// ```text
    /// R G R G
    /// G B G B
    /// R G R G
    /// G B G B
    /// ```
    RGGB,
}

impl CFA {
    /// The colour sampled at column `x`, row `y`.
    pub open spec fn color_of(self, x: int, y: int) -> Color {
        match self {
            CFA::RGGB => if x % 2 == 0 {
                if y % 2 == 0 {
                    Color::Red
                } else {
                    Color::Green
                }
            } else {
                if y % 2 == 0 {
                    Color::Green
                } else {
                    Color::Blue
                }
            },
        }
    }

    /// The colour sampled at column `x`, row `y`.
    pub fn color_at(&self, x: u32, y: u32) -> (c: Color)
        ensures
            c == self.color_of(x as int, y as int),
    {
        match self {
            CFA::RGGB => {
                if x % 2 == 0 {
                    if y % 2 == 0 {
                        Color::Red
                    } else {
                        Color::Green
                    }
                } else {
                    if y % 2 == 0 {
                        Color::Green
                    } else {
                        Color::Blue
                    }
                }
            },
        }
    }
}

/// The layout repeats with period two along both axes, so the colour at a
/// position depends only on whether its column and its row are even or odd.
pub proof fn lemma_color_of_periodic(cfa: CFA, x: int, y: int)
    ensures
        cfa.color_of(x + 2, y) == cfa.color_of(x, y),
        cfa.color_of(x, y + 2) == cfa.color_of(x, y),
        cfa.color_of(x, y) == cfa.color_of(x % 2, y % 2),
{
}

} // verus!
