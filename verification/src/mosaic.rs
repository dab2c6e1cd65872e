//! How a three-channel image lies over the mosaic of the sensor: where a
//! sample is stored, and which samples the sensor took.

use vstd::prelude::*;
use crate::color::Color;
use crate::grid::{index_of, in_grid, lemma_index_of};
use crate::metadata::Metadata;

verus! {

/// The level of channel `c` of the pixel at column `x`, row `y`, in the
/// levels `s` of a three-channel image `w` pixels wide.
pub open spec fn rgb_at(s: Seq<nat>, w: int, x: int, y: int, c: Color) -> nat {
    s[index_of(w, x, y) * 3 + c.offset()]
}

/// Whether column `x`, row `y` is a pixel of the image at which the sensor
/// sampled channel `c`.
pub open spec fn samples(meta: Metadata, x: int, y: int, c: Color) -> bool {
    in_grid(meta.width as int, meta.height as int, x, y) && meta.cfa.color_of(x, y) == c
}

/// Position, in a three-channel buffer, of the sample that the sensor took at
/// the pixel of index `q`.
pub open spec fn native_index(meta: Metadata, q: int) -> int {
    q * 3 + meta.color_of_index(q).offset()
}

/// The levels `a` and `b` hold the same samples of the sensor.
pub open spec fn native_kept(a: Seq<nat>, b: Seq<nat>, meta: Metadata) -> bool {
    &&& a.len() == b.len()
    &&& forall|q: int|
        0 <= q < meta.pixel_count() ==> a[#[trigger] native_index(meta, q)] == b[native_index(
            meta,
            q,
        )]
}

/// Two images that hold the same samples of the sensor agree on channel `c`
/// of a pixel at which the sensor sampled `c`.
pub proof fn lemma_sample_kept(a: Seq<nat>, b: Seq<nat>, meta: Metadata, x: int, y: int, c: Color)
    requires
        native_kept(a, b, meta),
        samples(meta, x, y, c),
    ensures
        rgb_at(a, meta.width as int, x, y, c) == rgb_at(b, meta.width as int, x, y, c),
{
    lemma_index_of(meta.width as int, meta.height as int, x, y);
    let q = index_of(meta.width as int, x, y);
    assert(native_index(meta, q) == q * 3 + c.offset());
}

} // verus!
