//! What holds of every expansion and every interpolation.

use vstd::prelude::*;
use crate::bilinear::{bilinear_at, neighbor_count, neighbor_sum};
use crate::color::Color;
use crate::component::{levels, lemma_levels_determine_samples, Component};
use crate::debayer::{expand, interpolated, lemma_expand_pixel, Interpolation};
use crate::grid::{in_grid, index_of, lemma_coordinates_of, lemma_index_of};
use crate::image::{Image, Rgb};
use crate::metadata::Metadata;
use crate::mosaic::{native_index, rgb_at};
use crate::nearest::nearest_at;

verus! {

/// Interpolation fills missing channels only: the sample that the sensor took
/// at a pixel is the same before and after, whatever the strategy.
pub proof fn lemma_interpolation_keeps_samples(
    s: Seq<nat>,
    meta: Metadata,
    interpolation: Interpolation,
    q: int,
)
    requires
        meta.width > 0,
        s.len() == meta.pixel_count() * 3,
        0 <= q < meta.pixel_count(),
    ensures
        interpolated(s, meta, interpolation)[native_index(meta, q)] == s[native_index(meta, q)],
{
    let w = meta.width as int;
    lemma_coordinates_of(w, meta.height as int, q);
    let k = native_index(meta, q);
    assert(k / 3 == q);
    assert(Color::of_offset(k) == meta.color_of_index(q));
}

/// Whether the sample that the sensor took at column `x`, row `y` is above
/// zero, where that is a pixel of the image.
pub open spec fn lit(s: Seq<nat>, meta: Metadata, x: int, y: int) -> bool {
    in_grid(meta.width as int, meta.height as int, x, y) ==> rgb_at(
        s,
        meta.width as int,
        x,
        y,
        meta.cfa.color_of(x, y),
    ) > 0
}

/// Whether the samples that the sensor took at column `x`, row `y` and at the
/// eight pixels around it are above zero.
pub open spec fn surroundings_lit(s: Seq<nat>, meta: Metadata, x: int, y: int) -> bool {
    &&& lit(s, meta, x - 1, y - 1)
    &&& lit(s, meta, x, y - 1)
    &&& lit(s, meta, x + 1, y - 1)
    &&& lit(s, meta, x - 1, y)
    &&& lit(s, meta, x, y)
    &&& lit(s, meta, x + 1, y)
    &&& lit(s, meta, x - 1, y + 1)
    &&& lit(s, meta, x, y + 1)
    &&& lit(s, meta, x + 1, y + 1)
}

/// In an image of at least two rows and two columns, neither strategy leaves
/// a channel of a pixel at zero, unless the sensor itself read zero at the
/// pixel or next to it: every channel is reconstructed from samples of the
/// sensor.
pub proof fn lemma_interpolation_fills_pixel(s: Seq<nat>, meta: Metadata, x: int, y: int, c: Color)
    requires
        meta.width >= 2,
        meta.height >= 2,
        in_grid(meta.width as int, meta.height as int, x, y),
        surroundings_lit(s, meta, x, y),
    ensures
        nearest_at(s, meta, x, y, c) > 0,
        bilinear_at(s, meta, x, y, c) > 0,
{
    if meta.cfa.color_of(x, y) != c {
        let sum = neighbor_sum(s, meta, x, y, c) as int;
        let count = neighbor_count(meta, x, y, c) as int;
        assert(count >= 1);
        assert(sum >= count);
        assert(sum / count > 0) by (nonlinear_arith)
            requires
                sum >= count,
                count >= 1,
        ;
    }
}

/// Where every sample of the sensor is above zero and the image has at least
/// two rows and two columns, neither strategy leaves any channel at zero.
pub proof fn lemma_interpolation_fills(s: Seq<nat>, meta: Metadata, interpolation: Interpolation)
    requires
        meta.width >= 2,
        meta.height >= 2,
        s.len() == meta.pixel_count() * 3,
        forall|q: int| 0 <= q < meta.pixel_count() ==> s[#[trigger] native_index(meta, q)] > 0,
        interpolation != Interpolation::Off,
    ensures
        forall|k: int| 0 <= k < s.len() ==> interpolated(s, meta, interpolation)[k] > 0,
{
    assert forall|k: int| 0 <= k < s.len() implies interpolated(s, meta, interpolation)[k]
        > 0 by {
        let w = meta.width as int;
        let h = meta.height as int;
        let x = (k / 3) % w;
        let y = (k / 3) / w;
        lemma_coordinates_of(w, h, k / 3);
        lemma_lit(s, meta, x - 1, y - 1);
        lemma_lit(s, meta, x, y - 1);
        lemma_lit(s, meta, x + 1, y - 1);
        lemma_lit(s, meta, x - 1, y);
        lemma_lit(s, meta, x, y);
        lemma_lit(s, meta, x + 1, y);
        lemma_lit(s, meta, x - 1, y + 1);
        lemma_lit(s, meta, x, y + 1);
        lemma_lit(s, meta, x + 1, y + 1);
        lemma_interpolation_fills_pixel(s, meta, x, y, Color::of_offset(k));
    }
}

/// A sensor reading without a zero, of at least two rows and two columns,
/// comes out of expansion and either strategy without a zero in any channel.
pub proof fn lemma_debayer_fills(sensor: Seq<nat>, meta: Metadata, interpolation: Interpolation)
    requires
        meta.width >= 2,
        meta.height >= 2,
        sensor.len() == meta.pixel_count(),
        forall|i: int| 0 <= i < sensor.len() ==> sensor[i] > 0,
        interpolation != Interpolation::Off,
    ensures
        forall|k: int|
            0 <= k < sensor.len() * 3 ==> interpolated(
                expand(sensor, meta.cfa, meta.width as int),
                meta,
                interpolation,
            )[k] > 0,
{
    let s = expand(sensor, meta.cfa, meta.width as int);
    assert forall|q: int| 0 <= q < meta.pixel_count() implies s[#[trigger] native_index(meta, q)]
        > 0 by {
        lemma_expand_pixel(sensor, meta.cfa, meta.width as int, q, meta.color_of_index(q));
    }
    lemma_interpolation_fills(s, meta, interpolation);
}

/// A pixel is lit where every sample of the sensor is above zero.
proof fn lemma_lit(s: Seq<nat>, meta: Metadata, x: int, y: int)
    requires
        forall|q: int| 0 <= q < meta.pixel_count() ==> s[#[trigger] native_index(meta, q)] > 0,
    ensures
        lit(s, meta, x, y),
{
    if in_grid(meta.width as int, meta.height as int, x, y) {
        lemma_index_of(meta.width as int, meta.height as int, x, y);
        let q = index_of(meta.width as int, x, y);
        assert(native_index(meta, q) == q * 3 + meta.cfa.color_of(x, y).offset());
    }
}

/// Interpolation is a function of the image and the strategy: two runs on
/// the same image with the same strategy end with the same samples.
pub proof fn lemma_interpolation_deterministic<T: Component>(
    first: Image<Rgb, T>,
    second: Image<Rgb, T>,
    source: Image<Rgb, T>,
    interpolation: Interpolation,
)
    requires
        first@ == interpolated(source@, source.meta, interpolation),
        second@ == interpolated(source@, source.meta, interpolation),
    ensures
        first.data@ == second.data@,
{
    assert(levels(first.data@) =~= first@);
    assert(levels(second.data@) =~= second@);
    lemma_levels_determine_samples(first.data@, second.data@);
}

} // verus!
