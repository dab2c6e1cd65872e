//! What is known of an image besides its samples.

use vstd::prelude::*;
use vstd::arithmetic::power2::{
    pow2, lemma2_to64, lemma_pow2_pos, lemma_pow2_unfold, lemma_pow2_strictly_increases,
};
use crate::cfa::CFA;
use crate::color::Color;
use crate::grid::{index_of, in_grid};

verus! {

/// Size, mosaic layout and sample depth of an image.
#[derive(Debug, Clone, Copy, PartialEq, Eq, Structural)]
pub struct Metadata {
    /// Pixels per row.
    pub width: u32,
    /// Number of rows.
    pub height: u32,
    /// Layout of the colour filter array in front of the sensor.
    pub cfa: CFA,
    /// Number of bits that a sample of the sensor uses.
    pub bit_depth: u8,
}

impl Metadata {
    /// Number of pixels of the image.
    pub open spec fn pixel_count(&self) -> int {
        self.width * self.height
    }

    /// The largest sample that fits in `bit_depth` bits.
    pub open spec fn max_sample(&self) -> nat {
        (pow2(self.bit_depth as nat) - 1) as nat
    }

    /// The colour that the sensor samples at the pixel of index `i`.
    pub open spec fn color_of_index(&self, i: int) -> Color {
        self.cfa.color_of(i % (self.width as int), i / (self.width as int))
    }

    /// Metadata of an image of `width` by `height` pixels behind the given
    /// colour filter array, with samples of 12 bits.
    pub fn new(width: u32, height: u32, cfa: CFA) -> (m: Self)
        ensures
            m.width == width,
            m.height == height,
            m.cfa == cfa,
            m.bit_depth == 12,
    {
        Metadata { width, height, cfa, bit_depth: 12 }
    }

    /// Index of the pixel at column `x`, row `y`. The coordinates are not
    /// held against the size of the image.
    pub fn xytoi(&self, x: u32, y: u32) -> (i: usize)
        requires
            y * self.width + x <= usize::MAX,
        ensures
            i == index_of(self.width as int, x as int, y as int),
    {
        assert(0 <= y * self.width) by (nonlinear_arith);
        y as usize * self.width as usize + x as usize
    }

    /// Column and row of the pixel of index `i`.
    pub fn itoxy(&self, i: usize) -> (c: (u32, u32))
        requires
            self.width > 0,
            i / (self.width as usize) <= u32::MAX,
        ensures
            c.0 == i % (self.width as usize),
            c.1 == i / (self.width as usize),
    {
        let y = i / self.width as usize;
        let x = i % self.width as usize;
        (x as u32, y as u32)
    }

    /// Number of pixels of the image.
    pub fn pixels(&self) -> (n: usize)
        requires
            self.width * self.height <= usize::MAX,
        ensures
            n == self.pixel_count(),
    {
        assert(0 <= self.width * self.height) by (nonlinear_arith);
        self.width as usize * self.height as usize
    }

    /// Number of samples of the image when it holds three per pixel.
    pub fn rgb_len(&self) -> (n: usize)
        requires
            self.width * self.height * 3 <= usize::MAX,
        ensures
            n == self.pixel_count() * 3,
    {
        assert(0 <= self.width * self.height) by (nonlinear_arith);
        self.width as usize * self.height as usize * 3
    }

    /// Whether column `x`, row `y` is a pixel of the image.
    pub fn are_coords_valid(&self, x: u32, y: u32) -> (b: bool)
        ensures
            b == in_grid(self.width as int, self.height as int, x as int, y as int),
    {
        x < self.width && y < self.height
    }

    /// The colour that the sensor samples at column `x`, row `y`.
    pub fn color_at_xy(&self, x: u32, y: u32) -> (c: Color)
        ensures
            c == self.cfa.color_of(x as int, y as int),
    {
        self.cfa.color_at(x, y)
    }

    /// The colour that the sensor samples at the pixel of index `index`.
    pub fn color_at_index(&self, index: usize) -> (c: Color)
        requires
            self.width > 0,
            index / (self.width as usize) <= u32::MAX,
        ensures
            c == self.color_of_index(index as int),
    {
        let (x, y) = self.itoxy(index);
        self.cfa.color_at(x, y)
    }

    /// The largest sample that fits in `bit_depth` bits.
    pub fn depth_max(&self) -> (m: usize)
        requires
            self.bit_depth <= usize::BITS,
        ensures
            m == self.max_sample(),
    {
        let mut m: usize = 0;
        let mut bits: u8 = 0;
        proof {
            lemma2_to64();
            lemma_pow2_pos(self.bit_depth as nat);
            if self.bit_depth < usize::BITS {
                lemma_pow2_strictly_increases(self.bit_depth as nat, usize::BITS as nat);
            }
        }
        while bits < self.bit_depth
            invariant
                bits <= self.bit_depth,
                m == pow2(bits as nat) - 1,
                pow2(self.bit_depth as nat) - 1 <= usize::MAX,
                pow2(self.bit_depth as nat) > 0,
            decreases self.bit_depth - bits,
        {
            proof {
                lemma_pow2_unfold((bits + 1) as nat);
                if bits + 1 < self.bit_depth {
                    lemma_pow2_strictly_increases((bits + 1) as nat, self.bit_depth as nat);
                }
            }
            m = 2 * m + 1;
            bits = bits + 1;
        }
        m
    }
}

} // verus!
