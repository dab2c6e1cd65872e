//! From a sensor reading to a colour image: expansion to three channels,
//! then interpolation of the channels that the sensor did not sample.

use vstd::prelude::*;
use crate::bilinear::{bilinear, Bilinear};
use crate::cfa::CFA;
use crate::color::Color;
use crate::component::{levels, Component};
use crate::grid::{in_grid, index_of, lemma_coordinates_of, lemma_index_of};
use crate::image::{Image, Rgb, Sensor};
use crate::metadata::Metadata;
use crate::nearest::{nearest, NearestNeighbor};
use crate::pattern::Pattern;

verus! {

/// How the missing channels of a pixel are reconstructed.
#[derive(Debug, Clone, Copy, PartialEq, Eq, Structural)]
pub enum Interpolation {
    /// They are left as they are: zero, after expansion.
    Off,
    /// Each is copied from one neighbouring sample of its colour.
    NearestNeighbor,
    /// Each is the mean of the neighbouring samples of its colour.
    Bilinear,
}

/// The levels of the three-channel image that a sensor reading with the
/// levels `sensor` expands to, for a sensor `width` pixels wide behind `cfa`.
///
/// Each pixel keeps its sample in the channel of the colour that the sensor
/// sampled there. Its two other channels are zero.
pub open spec fn expand(sensor: Seq<nat>, cfa: CFA, width: int) -> Seq<nat> {
    Seq::new(
        sensor.len() * 3,
        |k: int|
            if Color::of_offset(k) == cfa.color_of((k / 3) % width, (k / 3) / width) {
                sensor[k / 3]
            } else {
                0
            },
    )
}

/// The levels of a three-channel image with the levels `s` after the given
/// interpolation.
pub open spec fn interpolated(s: Seq<nat>, meta: Metadata, interpolation: Interpolation) -> Seq<
    nat,
> {
    match interpolation {
        Interpolation::Off => s,
        Interpolation::NearestNeighbor => nearest(s, meta),
        Interpolation::Bilinear => bilinear(s, meta),
    }
}

/// After expansion, the channel of the colour that the sensor sampled at a
/// pixel holds the sample of that pixel, and its two other channels hold
/// zero.
pub proof fn lemma_expand_pixel(sensor: Seq<nat>, cfa: CFA, width: int, i: int, c: Color)
    requires
        0 <= i < sensor.len(),
    ensures
        expand(sensor, cfa, width)[i * 3 + c.offset()] == (if c == cfa.color_of(
            i % width,
            i / width,
        ) {
            sensor[i]
        } else {
            0
        }),
{
    assert((i * 3 + c.offset()) / 3 == i);
}

/// A sensor reading on its way to a colour image.
pub struct Debayer<T: Component> {
    img: Image<Rgb, T>,
}

impl<T: Component> Debayer<T> {
    /// The colour image as it stands.
    pub closed spec fn image(&self) -> Image<Rgb, T> {
        self.img
    }

    /// Expands a sensor reading to three channels per pixel.
    ///
    /// The buffer of the reading is reused; it must be able to grow to three
    /// times its length.
    pub fn new(rimg: Image<Sensor, T>) -> (d: Self)
        requires
            rimg.wf(),
            rimg.data.len() * 3 <= usize::MAX,
        ensures
            d.image().wf(),
            d.image().meta == rimg.meta,
            d.image()@ == expand(rimg@, rimg.meta.cfa, rimg.meta.width as int),
    {
        let Image { kind: _, data, meta } = rimg;
        let mut data = data;
        let ghost sensor = data@;
        let sensor_len = data.len();
        data.resize(sensor_len * 3, T::zero());

        let mut i = sensor_len;
        while i > 0
            invariant
                i <= sensor_len,
                sensor_len == sensor.len(),
                sensor_len == meta.width * meta.height,
                meta.width > 0,
                data.len() == sensor_len * 3,
                forall|k: int| 0 <= k < i ==> data@[k] == sensor[k],
                forall|k: int|
                    3 * i <= k < 3 * sensor_len ==> data@[k].level() == expand(
                        levels(sensor),
                        meta.cfa,
                        meta.width as int,
                    )[k],
            decreases i,
        {
            i -= 1;
            proof {
                lemma_coordinates_of(meta.width as int, meta.height as int, i as int);
            }
            let light = data[i];
            match meta.color_at_index(i) {
                Color::Red => {
                    data[i * 3] = light;
                    data[i * 3 + 1] = T::zero();
                    data[i * 3 + 2] = T::zero();
                },
                Color::Green => {
                    data[i * 3] = T::zero();
                    data[i * 3 + 1] = light;
                    data[i * 3 + 2] = T::zero();
                },
                Color::Blue => {
                    data[i * 3] = T::zero();
                    data[i * 3 + 1] = T::zero();
                    data[i * 3 + 2] = light;
                },
            }
            proof {
                assert forall|k: int| 3 * i <= k < 3 * sensor_len implies data@[k].level()
                    == expand(levels(sensor), meta.cfa, meta.width as int)[k] by {
                    if k < 3 * i + 3 {
                        assert(k / 3 == i);
                    }
                }
            }
        }
        let d = Debayer { img: Image { kind: Rgb, data, meta } };
        assert(d.img@ =~= expand(levels(sensor), meta.cfa, meta.width as int));
        assert(rimg@ =~= levels(sensor));
        d
    }

    /// Reconstructs the missing channels and hands out the colour image.
    pub fn interpolate(self, interpolation: Interpolation) -> (img: Image<Rgb, T>)
        requires
            self.image().wf(),
        ensures
            img.wf(),
            img.meta == self.image().meta,
            img@ == interpolated(self.image()@, self.image().meta, interpolation),
    {
        let mut this = self;
        match interpolation {
            Interpolation::Off => (),
            Interpolation::NearestNeighbor => NearestNeighbor::interpolate(&mut this.img),
            Interpolation::Bilinear => Bilinear::interpolate(&mut this.img),
        }
        this.img
    }

    /// The sample of channel `color` at column `x`, row `y`, which must be a
    /// pixel of the image.
    pub fn get_pixel(&self, color: Color, x: u32, y: u32) -> (v: &T)
        requires
            self.image().wf(),
            in_grid(
                self.image().meta.width as int,
                self.image().meta.height as int,
                x as int,
                y as int,
            ),
        ensures
            *v == self.image().sample(x as int, y as int, color),
    {
        proof {
            lemma_index_of(
                self.img.meta.width as int,
                self.img.meta.height as int,
                x as int,
                y as int,
            );
        }
        let index = self.img.meta.xytoi(x, y) * 3;
        match color {
            Color::Red => &self.img.data[index],
            Color::Green => &self.img.data[index + 1],
            Color::Blue => &self.img.data[index + 2],
        }
    }

    /// Overwrites the sample of channel `color` at column `x`, row `y`,
    /// which must be a pixel of the image.
    pub fn set_pixel(&mut self, color: Color, value: T, x: u32, y: u32)
        requires
            old(self).image().wf(),
            in_grid(
                old(self).image().meta.width as int,
                old(self).image().meta.height as int,
                x as int,
                y as int,
            ),
        ensures
            final(self).image().wf(),
            final(self).image().meta == old(self).image().meta,
            final(self).image().data@ == old(self).image().data@.update(
                index_of(old(self).image().meta.width as int, x as int, y as int) * 3
                    + color.offset(),
                value,
            ),
    {
        proof {
            lemma_index_of(
                self.img.meta.width as int,
                self.img.meta.height as int,
                x as int,
                y as int,
            );
        }
        let index = self.img.meta.xytoi(x, y) * 3;
        match color {
            Color::Red => {
                self.img.data[index] = value;
            },
            Color::Green => {
                self.img.data[index + 1] = value;
            },
            Color::Blue => {
                self.img.data[index + 2] = value;
            },
        }
    }

    /// Reconstructs the missing channels from the nearest neighbours, in
    /// place.
    pub fn nearest_neighboor(&mut self)
        requires
            old(self).image().wf(),
        ensures
            final(self).image().wf(),
            final(self).image().meta == old(self).image().meta,
            final(self).image()@ == nearest(old(self).image()@, old(self).image().meta),
    {
        NearestNeighbor::interpolate(&mut self.img);
    }

    /// Expands the sensor samples `raw` of a sensor of `width` by `height`
    /// pixels behind `cfa` into the buffer `rgb`, which must have room for
    /// exactly three samples per pixel.
    pub fn expand_into(raw: &[T], rgb: &mut [T], cfa: CFA, width: u32, height: u32)
        requires
            raw.len() == width * height,
            old(rgb).len() == width * height * 3,
        ensures
            levels(final(rgb)@) == expand(levels(raw@), cfa, width as int),
    {
        let pattern = Pattern::new(cfa, width, height);
        let mut i: usize = 0;
        while i < raw.len()
            invariant
                i <= raw.len(),
                raw.len() == width * height,
                rgb.len() == raw.len() * 3,
                pattern.cfa == cfa,
                pattern.width == width,
                forall|k: int|
                    0 <= k < 3 * i ==> rgb@[k].level() == expand(levels(raw@), cfa, width as int)[k],
            decreases raw.len() - i,
        {
            assert(width > 0) by (nonlinear_arith)
                requires
                    i < width * height,
            ;
            proof {
                lemma_coordinates_of(width as int, height as int, i as int);
            }
            let light = raw[i];
            let x = (i % width as usize) as u32;
            let y = (i / width as usize) as u32;
            match pattern.color_at_xy(x, y) {
                Color::Red => {
                    rgb[i * 3] = light;
                    rgb[i * 3 + 1] = T::zero();
                    rgb[i * 3 + 2] = T::zero();
                },
                Color::Green => {
                    rgb[i * 3] = T::zero();
                    rgb[i * 3 + 1] = light;
                    rgb[i * 3 + 2] = T::zero();
                },
                Color::Blue => {
                    rgb[i * 3] = T::zero();
                    rgb[i * 3 + 1] = T::zero();
                    rgb[i * 3 + 2] = light;
                },
            }
            proof {
                assert forall|k: int| 0 <= k < 3 * (i + 1) implies rgb@[k].level() == expand(
                    levels(raw@),
                    cfa,
                    width as int,
                )[k] by {
                    if k >= 3 * i {
                        assert(k / 3 == i);
                    }
                }
            }
            i += 1;
        }
        assert(levels(rgb@) =~= expand(levels(raw@), cfa, width as int));
    }
}

} // verus!
