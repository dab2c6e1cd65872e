//! Nearest-neighbour interpolation: a missing channel of a pixel is copied
//! from one neighbouring pixel at which the sensor sampled that channel.

use vstd::prelude::*;
use crate::color::Color;
use crate::component::Component;
use crate::grid::{lemma_coordinates_of, lemma_index_of};
use crate::image::{Image, Rgb};
use crate::metadata::Metadata;
use crate::mosaic::{rgb_at, samples, native_index, native_kept, lemma_sample_kept};

verus! {

/// The level of channel `c` at column `x`, row `y` after nearest-neighbour
/// interpolation of the levels `s`.
///
/// The channel that the sensor sampled at the pixel stays. Another channel is
/// copied from the first neighbour at which the sensor sampled it, in a fixed
/// order: above, below, left, right, then the corners above left, above
/// right, below left, below right. It stays where there is no such neighbour.
pub open spec fn nearest_at(s: Seq<nat>, meta: Metadata, x: int, y: int, c: Color) -> nat {
    let w = meta.width as int;
    if meta.cfa.color_of(x, y) == c {
        rgb_at(s, w, x, y, c)
    } else if samples(meta, x, y - 1, c) {
        rgb_at(s, w, x, y - 1, c)
    } else if samples(meta, x, y + 1, c) {
        rgb_at(s, w, x, y + 1, c)
    } else if samples(meta, x - 1, y, c) {
        rgb_at(s, w, x - 1, y, c)
    } else if samples(meta, x + 1, y, c) {
        rgb_at(s, w, x + 1, y, c)
    } else if samples(meta, x - 1, y - 1, c) {
        rgb_at(s, w, x - 1, y - 1, c)
    } else if samples(meta, x + 1, y - 1, c) {
        rgb_at(s, w, x + 1, y - 1, c)
    } else if samples(meta, x - 1, y + 1, c) {
        rgb_at(s, w, x - 1, y + 1, c)
    } else if samples(meta, x + 1, y + 1, c) {
        rgb_at(s, w, x + 1, y + 1, c)
    } else {
        rgb_at(s, w, x, y, c)
    }
}

/// The levels of a three-channel image after nearest-neighbour interpolation
/// of the levels `s`.
pub open spec fn nearest(s: Seq<nat>, meta: Metadata) -> Seq<nat> {
    Seq::new(
        s.len(),
        |k: int|
            nearest_at(
                s,
                meta,
                (k / 3) % (meta.width as int),
                (k / 3) / (meta.width as int),
                Color::of_offset(k),
            ),
    )
}

/// Nearest-neighbour interpolation reads only the samples of the sensor, and
/// the channel that it fills.
proof fn lemma_nearest_at_kept(
    a: Seq<nat>,
    b: Seq<nat>,
    meta: Metadata,
    x: int,
    y: int,
    c: Color,
)
    requires
        native_kept(a, b, meta),
        rgb_at(a, meta.width as int, x, y, c) == rgb_at(b, meta.width as int, x, y, c),
    ensures
        nearest_at(a, meta, x, y, c) == nearest_at(b, meta, x, y, c),
{
    if samples(meta, x, y - 1, c) {
        lemma_sample_kept(a, b, meta, x, y - 1, c);
    }
    if samples(meta, x, y + 1, c) {
        lemma_sample_kept(a, b, meta, x, y + 1, c);
    }
    if samples(meta, x - 1, y, c) {
        lemma_sample_kept(a, b, meta, x - 1, y, c);
    }
    if samples(meta, x + 1, y, c) {
        lemma_sample_kept(a, b, meta, x + 1, y, c);
    }
    if samples(meta, x - 1, y - 1, c) {
        lemma_sample_kept(a, b, meta, x - 1, y - 1, c);
    }
    if samples(meta, x + 1, y - 1, c) {
        lemma_sample_kept(a, b, meta, x + 1, y - 1, c);
    }
    if samples(meta, x - 1, y + 1, c) {
        lemma_sample_kept(a, b, meta, x - 1, y + 1, c);
    }
    if samples(meta, x + 1, y + 1, c) {
        lemma_sample_kept(a, b, meta, x + 1, y + 1, c);
    }
}

/// Interpolation by the copy of one neighbouring sample of a channel.
pub struct NearestNeighbor;

impl NearestNeighbor {
    /// Fills the two missing channels of every pixel with a neighbouring
    /// sample of that channel.
    ///
    /// Only samples of the sensor are read, so the result does not depend on
    /// the order in which the pixels are visited.
    pub fn interpolate<T: Component>(cimg: &mut Image<Rgb, T>)
        requires
            old(cimg).wf(),
        ensures
            final(cimg).wf(),
            final(cimg).meta == old(cimg).meta,
            final(cimg)@ == nearest(old(cimg)@, old(cimg).meta),
    {
        let n = cimg.meta.pixels();
        let ghost before = cimg@;
        let ghost meta = cimg.meta;
        let mut pix: usize = 0;
        while pix < n
            invariant
                pix <= n,
                n == meta.pixel_count(),
                cimg.meta == meta,
                cimg.wf(),
                native_kept(before, cimg@, meta),
                forall|k: int| 0 <= k < 3 * pix ==> cimg@[k] == nearest(before, meta)[k],
                forall|k: int| 3 * pix <= k < 3 * n ==> cimg@[k] == before[k],
            decreases n - pix,
        {
            let ghost mid = cimg@;
            let ghost x = pix as int % meta.width as int;
            let ghost y = pix as int / meta.width as int;
            proof {
                lemma_coordinates_of(meta.width as int, meta.height as int, pix as int);
                lemma_nearest_at_kept(mid, before, meta, x, y, Color::Red);
                lemma_nearest_at_kept(mid, before, meta, x, y, Color::Green);
                lemma_nearest_at_kept(mid, before, meta, x, y, Color::Blue);
                assert(mid[native_index(meta, pix as int)] == before[native_index(
                    meta,
                    pix as int,
                )]);
            }
            match cimg.meta.color_at_index(pix) {
                Color::Red => {
                    let green = Self::get_component(cimg, Color::Green, pix);
                    let blue = Self::get_component(cimg, Color::Blue, pix);
                    cimg.set_component(pix, Color::Green, green);
                    cimg.set_component(pix, Color::Blue, blue);
                },
                Color::Green => {
                    let red = Self::get_component(cimg, Color::Red, pix);
                    let blue = Self::get_component(cimg, Color::Blue, pix);
                    cimg.set_component(pix, Color::Red, red);
                    cimg.set_component(pix, Color::Blue, blue);
                },
                Color::Blue => {
                    let red = Self::get_component(cimg, Color::Red, pix);
                    let green = Self::get_component(cimg, Color::Green, pix);
                    cimg.set_component(pix, Color::Red, red);
                    cimg.set_component(pix, Color::Green, green);
                },
            }
            proof {
                assert forall|k: int| 0 <= k < 3 * (pix + 1) implies cimg@[k] == nearest(
                    before,
                    meta,
                )[k] by {
                    if k >= 3 * pix {
                        assert(k / 3 == pix);
                    } else {
                        assert(cimg@[k] == mid[k]);
                    }
                }
                assert forall|q: int| 0 <= q < meta.pixel_count() implies before[native_index(
                    meta,
                    q,
                )] == cimg@[#[trigger] native_index(meta, q)] by {
                    assert(mid[native_index(meta, q)] == before[native_index(meta, q)]);
                }
            }
            pix += 1;
        }
        assert(cimg@ =~= nearest(before, meta));
    }

    /// The sample of channel `color` for the pixel of index `i`: its own
    /// where the sensor sampled that channel there, else that of a neighbour.
    ///
    /// Of two neighbours at the same distance the one above is taken before
    /// the one below, the one to the left before the one to the right, and
    /// one above or below before one to the left or right.
    pub fn get_component<T: Component>(cimg: &Image<Rgb, T>, color: Color, i: usize) -> (v: T)
        requires
            cimg.wf(),
            i < cimg.meta.pixel_count(),
        ensures
            v.level() == nearest_at(
                cimg@,
                cimg.meta,
                i as int % cimg.meta.width as int,
                i as int / cimg.meta.width as int,
                color,
            ),
    {
        proof {
            lemma_coordinates_of(cimg.meta.width as int, cimg.meta.height as int, i as int);
        }
        let (x, y) = cimg.meta.itoxy(i);

        // The row above where there is one, else the row below.
        let top_color = y != 0;
        // The column to the left where there is one, else the one to the right.
        let left_color = x != 0;
        let rows = cimg.meta.height > 1;
        let columns = cimg.meta.width > 1;

        let color_x = if left_color {
            x - 1
        } else {
            x + 1
        };
        let color_y = if top_color {
            y - 1
        } else {
            y + 1
        };

        proof {
            let w = cimg.meta.width as int;
            let h = cimg.meta.height as int;
            lemma_index_of(w, h, x as int, y as int);
            if rows {
                lemma_index_of(w, h, x as int, color_y as int);
            }
            if columns {
                lemma_index_of(w, h, color_x as int, y as int);
            }
            if rows && columns {
                lemma_index_of(w, h, color_x as int, color_y as int);
            }
        }

        let current_color = cimg.meta.color_at_xy(x, y);
        let own = cimg.component(x, y, color);

        match current_color {
            Color::Red => match color {
                Color::Red => own,
                Color::Green => {
                    if rows {
                        cimg.component(x, color_y, color)
                    } else if columns {
                        cimg.component(color_x, y, color)
                    } else {
                        own
                    }
                },
                Color::Blue => {
                    if rows && columns {
                        cimg.component(color_x, color_y, color)
                    } else {
                        own
                    }
                },
            },
            Color::Green => {
                let x_even = x % 2 == 0;
                let above_or_below = if rows {
                    cimg.component(x, color_y, color)
                } else {
                    own
                };
                let left_or_right = if columns {
                    cimg.component(color_x, y, color)
                } else {
                    own
                };
                match color {
                    Color::Red => if x_even {
                        above_or_below
                    } else {
                        left_or_right
                    },
                    Color::Green => own,
                    Color::Blue => if x_even {
                        left_or_right
                    } else {
                        above_or_below
                    },
                }
            },
            Color::Blue => match color {
                Color::Red => {
                    if rows && columns {
                        cimg.component(color_x, color_y, color)
                    } else {
                        own
                    }
                },
                Color::Green => {
                    if rows {
                        cimg.component(x, color_y, color)
                    } else if columns {
                        cimg.component(color_x, y, color)
                    } else {
                        own
                    }
                },
                Color::Blue => own,
            },
        }
    }
}

} // verus!
