//! The three colour channels of a pixel.

use vstd::prelude::*;
use vstd::std_specs::convert::FromSpecImpl;

verus! {

/// A colour channel, in the order in which a pixel stores its samples.
#[derive(Debug, Clone, Copy, PartialEq, Eq, Structural)]
pub enum Color {
    Red,
    Green,
    Blue,
}

impl Color {
    /// Position of the channel inside a three-sample pixel.
    pub open spec fn offset(self) -> int {
        match self {
            Color::Red => 0,
            Color::Green => 1,
            Color::Blue => 2,
        }
    }

    /// The channel stored at position `k % 3` of a pixel.
    pub open spec fn of_offset(k: int) -> Color {
        if k % 3 == 0 {
            Color::Red
        } else if k % 3 == 1 {
            Color::Green
        } else {
            Color::Blue
        }
    }

    /// Position of the channel inside a three-sample pixel.
    pub fn index(self) -> (i: usize)
        ensures
            i == self.offset(),
    {
        match self {
            Color::Red => 0,
            Color::Green => 1,
            Color::Blue => 2,
        }
    }

    /// The name of the colour, in lower case.
    pub fn name(&self) -> (s: String)
        ensures
            s@ == (match self {
                Color::Red => "red"@,
                Color::Green => "green"@,
                Color::Blue => "blue"@,
            }),
    {
        match self {
            Color::Red => "red".to_owned(),
            Color::Green => "green".to_owned(),
            Color::Blue => "blue".to_owned(),
        }
    }
}

impl From<Color> for usize {
    fn from(c: Color) -> (i: usize) {
        c.index()
    }
}

impl FromSpecImpl<Color> for usize {
    open spec fn obeys_from_spec() -> bool {
        true
    }

    open spec fn from_spec(c: Color) -> usize {
        c.offset() as usize
    }
}

} // verus!
