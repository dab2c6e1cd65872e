//! Images: a flat, row-major buffer of samples with its metadata.
//!
//! Coordinates and indices outside of an image are the caller's error. Every
//! function states as a precondition what it needs of them, and none of them
//! checks at run time or clamps.

use vstd::prelude::*;
use std::ops::Range;
use crate::cfa::CFA;
use crate::color::Color;
use crate::component::{levels, Component};
use crate::grid::{index_of, in_grid, lemma_index_of};
use crate::metadata::Metadata;

verus! {

/// What the samples of a pixel mean, and how many of them a pixel has.
pub trait Kind {
    /// Number of samples per pixel.
    spec fn channels() -> nat;

    /// Number of samples per pixel.
    fn per_pixel() -> (n: usize)
        ensures
            n == Self::channels(),
    ;
}

/// A raw sensor reading: one sample per pixel, of the colour that the colour
/// filter array lets through at that pixel.
#[derive(Debug, Clone, Copy)]
pub struct Sensor;

impl Kind for Sensor {
    open spec fn channels() -> nat {
        1
    }

    fn per_pixel() -> (n: usize) {
        1
    }
}

/// Three samples per pixel: red, green, blue.
#[derive(Debug, Clone, Copy)]
pub struct Rgb;

impl Kind for Rgb {
    open spec fn channels() -> nat {
        3
    }

    fn per_pixel() -> (n: usize) {
        3
    }
}

/// Three samples per pixel: hue, saturation, value.
#[derive(Debug, Clone, Copy)]
pub struct Hsv;

impl Kind for Hsv {
    open spec fn channels() -> nat {
        3
    }

    fn per_pixel() -> (n: usize) {
        3
    }
}

/// One sample per pixel: its brightness.
#[derive(Debug, Clone, Copy)]
pub struct Gray;

impl Kind for Gray {
    open spec fn channels() -> nat {
        1
    }

    fn per_pixel() -> (n: usize) {
        1
    }
}

/// An image of kind `K` with samples of type `T`.
///
/// The samples lie row by row, and within a pixel channel by channel. The kind
/// is part of the type, so a sensor reading cannot be handed over where a
/// colour image is expected.
pub struct Image<K: Kind, T: Component> {
    pub kind: K,
    pub data: Vec<T>,
    pub meta: Metadata,
}

impl<K: Kind, T: Component> View for Image<K, T> {
    type V = Seq<nat>;

    /// The levels of the samples, in the order of the buffer.
    open spec fn view(&self) -> Seq<nat> {
        levels(self.data@)
    }
}

impl<K: Kind, T: Component> Image<K, T> {
    /// The image has at least one pixel, and its buffer holds exactly the
    /// samples of its pixels.
    pub open spec fn wf(&self) -> bool {
        &&& self.meta.width > 0
        &&& self.meta.height > 0
        &&& self.data.len() == self.meta.width * self.meta.height * K::channels()
    }

    /// The indices of the pixels.
    pub fn pixel_range(&self) -> (r: Range<usize>)
        requires
            self.meta.width * self.meta.height <= usize::MAX,
        ensures
            r.start == 0,
            r.end == self.meta.pixel_count(),
    {
        0..self.meta.pixels()
    }

    /// The indices of the samples.
    pub fn data_range(&self) -> (r: Range<usize>)
        ensures
            r.start == 0,
            r.end == self.data@.len(),
    {
        0..self.data.len()
    }
}

impl<T: Component> Image<Sensor, T> {
    /// A sensor image from the full readout of a sensor.
    ///
    /// The readout has `raw_width` by `raw_height` samples, of which the
    /// `width` leftmost columns and the `height` topmost rows are the image.
    /// Where both sizes count the same number of pixels the readout is the
    /// image, with the size of the readout; else the columns to the right
    /// and the rows below are dropped.
    pub fn from_raw(
        sensor_data: Vec<T>,
        raw_width: u32,
        raw_height: u32,
        width: u32,
        height: u32,
        cfa: CFA,
    ) -> (img: Self)
        requires
            sensor_data.len() == raw_width * raw_height,
            width <= raw_width,
            height <= raw_height,
        ensures
            img.meta.cfa == cfa,
            img.meta.bit_depth == 12,
            img.data.len() == img.meta.width * img.meta.height,
            img.wf() <==> img.meta.width > 0 && img.meta.height > 0,
            raw_width * raw_height == width * height ==> {
                &&& img.meta.width == raw_width
                &&& img.meta.height == raw_height
                &&& img.data@ == sensor_data@
            },
            raw_width * raw_height != width * height ==> {
                &&& img.meta.width == width
                &&& img.meta.height == height
                &&& forall|x: int, y: int|
                    in_grid(width as int, height as int, x, y) ==> img.data@[#[trigger] index_of(
                        width as int,
                        x,
                        y,
                    )] == sensor_data@[index_of(raw_width as int, x, y)]
            },
    {
        assert(0 <= width * height <= raw_width * raw_height) by (nonlinear_arith)
            requires
                0 <= width <= raw_width,
                0 <= height <= raw_height,
        ;
        let raw_size = raw_width as usize * raw_height as usize;
        let image_size = width as usize * height as usize;

        if raw_size != image_size {
            let mut image: Vec<T> = Vec::with_capacity(image_size);
            let mut row: usize = 0;
            while row < height as usize
                invariant
                    row <= height,
                    width <= raw_width,
                    height <= raw_height,
                    sensor_data.len() == raw_width * raw_height,
                    image.len() == row * width,
                    forall|x: int, y: int|
                        in_grid(width as int, row as int, x, y) ==> image@[#[trigger] index_of(
                            width as int,
                            x,
                            y,
                        )] == sensor_data@[index_of(raw_width as int, x, y)],
                decreases height - row,
            {
                proof {
                    if width > 0 {
                        lemma_index_of(
                            raw_width as int,
                            raw_height as int,
                            width - 1,
                            row as int,
                        );
                    }
                    assert((row + 1) * width == row * width + width) by (nonlinear_arith);
                    assert(row * raw_width >= 0) by (nonlinear_arith);
                    assert(row * raw_width <= raw_height * raw_width) by (nonlinear_arith)
                        requires
                            row <= raw_height,
                            0 <= raw_width,
                    ;
                    assert(raw_height * raw_width == raw_width * raw_height) by (nonlinear_arith);
                }
                let lower = row * raw_width as usize;
                let ghost before = image@;
                let mut column: usize = 0;
                while column < width as usize
                    invariant
                        column <= width,
                        width <= raw_width,
                        row < height,
                        lower == row * raw_width,
                        lower + width <= sensor_data.len(),
                        image.len() == row * width + column,
                        before.len() == row * width,
                        forall|k: int| 0 <= k < before.len() ==> image@[k] == before[k],
                        forall|k: int|
                            before.len() <= k < image.len() ==> image@[k] == sensor_data@[lower + (k
                                - before.len())],
                    decreases width - column,
                {
                    image.push(sensor_data[lower + column]);
                    column += 1;
                }
                proof {
                    assert forall|x: int, y: int|
                        in_grid(width as int, row + 1, x, y) implies image@[#[trigger] index_of(
                        width as int,
                        x,
                        y,
                    )] == sensor_data@[index_of(raw_width as int, x, y)] by {
                        if y < row {
                            lemma_index_of(width as int, row as int, x, y);
                            assert(width * row == row * width) by (nonlinear_arith);
                            assert(before[index_of(width as int, x, y)] == sensor_data@[index_of(
                                raw_width as int,
                                x,
                                y,
                            )]);
                        }
                    }
                }
                row += 1;
            }
            assert(height * width == width * height) by (nonlinear_arith);
            Image { kind: Sensor, data: image, meta: Metadata::new(width, height, cfa) }
        } else {
            Image { kind: Sensor, data: sensor_data, meta: Metadata::new(raw_width, raw_height, cfa) }
        }
    }
}

impl<T: Component> Image<Rgb, T> {
    /// The sample of the given channel at column `x`, row `y`.
    pub open spec fn sample(&self, x: int, y: int, color: Color) -> T {
        self.data@[index_of(self.meta.width as int, x, y) * 3 + color.offset()]
    }

    /// The sample of the given channel at column `x`, row `y`, which must be
    /// a pixel of the image.
    pub fn component(&self, x: u32, y: u32, color: Color) -> (v: T)
        requires
            self.wf(),
            in_grid(self.meta.width as int, self.meta.height as int, x as int, y as int),
        ensures
            v == self.sample(x as int, y as int, color),
    {
        proof {
            lemma_index_of(self.meta.width as int, self.meta.height as int, x as int, y as int);
        }
        let i = self.meta.xytoi(x, y);
        let per_pixel = Rgb::per_pixel();
        self.data[i * per_pixel + color.index()]
    }

    /// Overwrites the sample of the given channel at the pixel of index `i`,
    /// which must be a pixel of the image.
    pub fn set_component(&mut self, i: usize, color: Color, value: T)
        requires
            old(self).wf(),
            i < old(self).meta.pixel_count(),
        ensures
            final(self).wf(),
            final(self).meta == old(self).meta,
            final(self).data@ == old(self).data@.update(i * 3 + color.offset(), value),
    {
        let per_pixel = Rgb::per_pixel();
        self.data.set(i * per_pixel + color.index(), value);
    }
}

} // verus!
