//! Bilinear interpolation: a missing channel of a pixel becomes the mean of
//! the neighbouring pixels at which the sensor sampled that channel.

use vstd::prelude::*;
use crate::color::Color;
use crate::component::Component;
use crate::grid::{in_grid, lemma_index_of, lemma_coordinates_of};
use crate::image::{Image, Rgb};
use crate::metadata::Metadata;
use crate::mosaic::{rgb_at, samples, native_index, native_kept, lemma_sample_kept};

verus! {

/// What column `x`, row `y` adds to a sum over neighbours: its level of
/// channel `c` where it is a pixel of the image, nothing where it is not.
pub open spec fn part(s: Seq<nat>, meta: Metadata, x: int, y: int, c: Color) -> nat {
    if in_grid(meta.width as int, meta.height as int, x, y) {
        rgb_at(s, meta.width as int, x, y, c)
    } else {
        0
    }
}

/// What column `x`, row `y` adds to a count of neighbours.
pub open spec fn present(meta: Metadata, x: int, y: int) -> nat {
    if in_grid(meta.width as int, meta.height as int, x, y) {
        1
    } else {
        0
    }
}

/// The mean of `count` levels that add up to `sum`, rounded down; `otherwise`
/// where there is nothing to average.
pub open spec fn mean_or(sum: nat, count: nat, otherwise: nat) -> nat {
    if count == 0 {
        otherwise
    } else {
        sum / count
    }
}

/// Mean of channel `c` over the pixels directly above and below column `x`,
/// row `y`, as far as they exist.
pub open spec fn vertical_mean(s: Seq<nat>, meta: Metadata, x: int, y: int, c: Color) -> nat {
    mean_or(
        part(s, meta, x, y - 1, c) + part(s, meta, x, y + 1, c),
        present(meta, x, y - 1) + present(meta, x, y + 1),
        rgb_at(s, meta.width as int, x, y, c),
    )
}

/// Mean of channel `c` over the pixels directly left and right of column `x`,
/// row `y`, as far as they exist.
pub open spec fn horizontal_mean(s: Seq<nat>, meta: Metadata, x: int, y: int, c: Color) -> nat {
    mean_or(
        part(s, meta, x - 1, y, c) + part(s, meta, x + 1, y, c),
        present(meta, x - 1, y) + present(meta, x + 1, y),
        rgb_at(s, meta.width as int, x, y, c),
    )
}

/// Mean of channel `c` over the four pixels that share an edge with column
/// `x`, row `y`, as far as they exist.
pub open spec fn orthogonal_mean(s: Seq<nat>, meta: Metadata, x: int, y: int, c: Color) -> nat {
    mean_or(
        part(s, meta, x, y - 1, c) + part(s, meta, x + 1, y, c) + part(s, meta, x, y + 1, c)
            + part(s, meta, x - 1, y, c),
        present(meta, x, y - 1) + present(meta, x + 1, y) + present(meta, x, y + 1) + present(
            meta,
            x - 1,
            y,
        ),
        rgb_at(s, meta.width as int, x, y, c),
    )
}

/// Mean of channel `c` over the four pixels that share only a corner with
/// column `x`, row `y`, as far as they exist.
pub open spec fn diagonal_mean(s: Seq<nat>, meta: Metadata, x: int, y: int, c: Color) -> nat {
    mean_or(
        part(s, meta, x + 1, y - 1, c) + part(s, meta, x + 1, y + 1, c) + part(
            s,
            meta,
            x - 1,
            y + 1,
            c,
        ) + part(s, meta, x - 1, y - 1, c),
        present(meta, x + 1, y - 1) + present(meta, x + 1, y + 1) + present(meta, x - 1, y + 1)
            + present(meta, x - 1, y - 1),
        rgb_at(s, meta.width as int, x, y, c),
    )
}

/// What column `x`, row `y` adds to the sum of the neighbours that hold
/// channel `c`: its level of that channel where it is a pixel of the image
/// at which the sensor sampled `c`, nothing elsewhere.
pub open spec fn share(s: Seq<nat>, meta: Metadata, x: int, y: int, c: Color) -> nat {
    if samples(meta, x, y, c) {
        rgb_at(s, meta.width as int, x, y, c)
    } else {
        0
    }
}

/// What column `x`, row `y` adds to the count of the neighbours that hold
/// channel `c`.
pub open spec fn holds(meta: Metadata, x: int, y: int, c: Color) -> nat {
    if samples(meta, x, y, c) {
        1
    } else {
        0
    }
}

/// Sum of the levels of channel `c` over those of the eight pixels around
/// column `x`, row `y` at which the sensor sampled `c`.
pub open spec fn neighbor_sum(s: Seq<nat>, meta: Metadata, x: int, y: int, c: Color) -> nat {
    share(s, meta, x, y - 1, c) + share(s, meta, x + 1, y, c) + share(s, meta, x, y + 1, c)
        + share(s, meta, x - 1, y, c) + share(s, meta, x + 1, y - 1, c) + share(
        s,
        meta,
        x + 1,
        y + 1,
        c,
    ) + share(s, meta, x - 1, y + 1, c) + share(s, meta, x - 1, y - 1, c)
}

/// Number of those of the eight pixels around column `x`, row `y` at which
/// the sensor sampled `c`.
pub open spec fn neighbor_count(meta: Metadata, x: int, y: int, c: Color) -> nat {
    holds(meta, x, y - 1, c) + holds(meta, x + 1, y, c) + holds(meta, x, y + 1, c) + holds(
        meta,
        x - 1,
        y,
        c,
    ) + holds(meta, x + 1, y - 1, c) + holds(meta, x + 1, y + 1, c) + holds(
        meta,
        x - 1,
        y + 1,
        c,
    ) + holds(meta, x - 1, y - 1, c)
}

/// The level of channel `c` at column `x`, row `y` after bilinear
/// interpolation of the levels `s`.
///
/// The channel that the sensor sampled at the pixel stays. Another channel
/// becomes the mean, rounded down, of that channel over the neighbours at
/// which the sensor sampled it, divided by their exact number; it stays
/// where there is no such neighbour.
pub open spec fn bilinear_at(s: Seq<nat>, meta: Metadata, x: int, y: int, c: Color) -> nat {
    if meta.cfa.color_of(x, y) == c {
        rgb_at(s, meta.width as int, x, y, c)
    } else {
        mean_or(
            neighbor_sum(s, meta, x, y, c),
            neighbor_count(meta, x, y, c),
            rgb_at(s, meta.width as int, x, y, c),
        )
    }
}

/// The levels of a three-channel image after bilinear interpolation of the
/// levels `s`.
pub open spec fn bilinear(s: Seq<nat>, meta: Metadata) -> Seq<nat> {
    Seq::new(
        s.len(),
        |k: int|
            bilinear_at(
                s,
                meta,
                (k / 3) % (meta.width as int),
                (k / 3) / (meta.width as int),
                Color::of_offset(k),
            ),
    )
}

/// A neighbour adds the same to the sum in two images that hold the same
/// samples of the sensor.
proof fn lemma_share_kept(a: Seq<nat>, b: Seq<nat>, meta: Metadata, x: int, y: int, c: Color)
    requires
        native_kept(a, b, meta),
    ensures
        share(a, meta, x, y, c) == share(b, meta, x, y, c),
{
    if samples(meta, x, y, c) {
        lemma_sample_kept(a, b, meta, x, y, c);
    }
}

/// Bilinear interpolation reads only the samples of the sensor, and the
/// channel that it fills.
proof fn lemma_bilinear_at_kept(
    a: Seq<nat>,
    b: Seq<nat>,
    meta: Metadata,
    x: int,
    y: int,
    c: Color,
)
    requires
        native_kept(a, b, meta),
        rgb_at(a, meta.width as int, x, y, c) == rgb_at(b, meta.width as int, x, y, c),
    ensures
        bilinear_at(a, meta, x, y, c) == bilinear_at(b, meta, x, y, c),
{
    lemma_share_kept(a, b, meta, x, y - 1, c);
    lemma_share_kept(a, b, meta, x + 1, y, c);
    lemma_share_kept(a, b, meta, x, y + 1, c);
    lemma_share_kept(a, b, meta, x - 1, y, c);
    lemma_share_kept(a, b, meta, x + 1, y - 1, c);
    lemma_share_kept(a, b, meta, x + 1, y + 1, c);
    lemma_share_kept(a, b, meta, x - 1, y + 1, c);
    lemma_share_kept(a, b, meta, x - 1, y - 1, c);
}

/// At a pixel where the sensor sampled red or blue, green is found at the
/// pixels that share an edge with it, and the third colour at those that
/// share a corner. At a pixel where it sampled green, the colour of the
/// pixels left and right of it is found there, and the other above and below.
proof fn lemma_where_colors_lie(s: Seq<nat>, meta: Metadata, x: int, y: int)
    requires
        in_grid(meta.width as int, meta.height as int, x, y),
    ensures
        meta.cfa.color_of(x, y) == Color::Red ==> {
            &&& bilinear_at(s, meta, x, y, Color::Green) == orthogonal_mean(
                s,
                meta,
                x,
                y,
                Color::Green,
            )
            &&& bilinear_at(s, meta, x, y, Color::Blue) == diagonal_mean(
                s,
                meta,
                x,
                y,
                Color::Blue,
            )
        },
        meta.cfa.color_of(x, y) == Color::Blue ==> {
            &&& bilinear_at(s, meta, x, y, Color::Green) == orthogonal_mean(
                s,
                meta,
                x,
                y,
                Color::Green,
            )
            &&& bilinear_at(s, meta, x, y, Color::Red) == diagonal_mean(s, meta, x, y, Color::Red)
        },
        meta.cfa.color_of(x, y) == Color::Green && y % 2 == 1 ==> {
            &&& bilinear_at(s, meta, x, y, Color::Red) == vertical_mean(s, meta, x, y, Color::Red)
            &&& bilinear_at(s, meta, x, y, Color::Blue) == horizontal_mean(
                s,
                meta,
                x,
                y,
                Color::Blue,
            )
        },
        meta.cfa.color_of(x, y) == Color::Green && y % 2 == 0 ==> {
            &&& bilinear_at(s, meta, x, y, Color::Blue) == vertical_mean(
                s,
                meta,
                x,
                y,
                Color::Blue,
            )
            &&& bilinear_at(s, meta, x, y, Color::Red) == horizontal_mean(
                s,
                meta,
                x,
                y,
                Color::Red,
            )
        },
{
}

/// At a corner of an image of at least two by two pixels, a missing channel
/// other than green has a single neighbour that holds it, and becomes the
/// exact sample of that neighbour: the pixel diagonally inwards at a red or
/// blue corner, a pixel next to it in its row or column at a green corner.
pub proof fn lemma_bilinear_corner(s: Seq<nat>, meta: Metadata, x: int, y: int, c: Color)
    requires
        meta.width >= 2,
        meta.height >= 2,
        x == 0 || x == meta.width - 1,
        y == 0 || y == meta.height - 1,
        c != meta.cfa.color_of(x, y),
        c != Color::Green,
    ensures
        neighbor_count(meta, x, y, c) == 1,
        bilinear_at(s, meta, x, y, c) == ({
            let w = meta.width as int;
            let nx = if x == 0 {
                1
            } else {
                x - 1
            };
            let ny = if y == 0 {
                1
            } else {
                y - 1
            };
            if samples(meta, nx, ny, c) {
                rgb_at(s, w, nx, ny, c)
            } else if samples(meta, nx, y, c) {
                rgb_at(s, w, nx, y, c)
            } else {
                rgb_at(s, w, x, ny, c)
            }
        }),
{
}

/// Which edges of the image the pixel at column `x`, row `y` touches: top,
/// right, bottom, left.
pub open spec fn touched(meta: Metadata, x: int, y: int) -> (bool, bool, bool, bool) {
    (y < 1, x >= meta.width - 1, y >= meta.height - 1, x < 1)
}

/// A running sum of neighbouring samples.
struct Tally {
    sum: u64,
    count: u64,
}

/// Interpolation by the mean of the neighbouring samples of a channel.
pub struct Bilinear;

impl Bilinear {
    /// Fills the two missing channels of every pixel with the mean of the
    /// neighbouring samples of that channel.
    ///
    /// Only samples of the sensor are read, so the result does not depend on
    /// the order in which the pixels are visited.
    pub fn interpolate<T: Component>(img: &mut Image<Rgb, T>)
        requires
            old(img).wf(),
        ensures
            final(img).wf(),
            final(img).meta == old(img).meta,
            final(img)@ == bilinear(old(img)@, old(img).meta),
    {
        let n = img.meta.pixels();
        let ghost before = img@;
        let ghost meta = img.meta;
        let mut pix: usize = 0;
        while pix < n
            invariant
                pix <= n,
                n == meta.pixel_count(),
                img.meta == meta,
                img.wf(),
                native_kept(before, img@, meta),
                forall|k: int| 0 <= k < 3 * pix ==> img@[k] == bilinear(before, meta)[k],
                forall|k: int| 3 * pix <= k < 3 * n ==> img@[k] == before[k],
            decreases n - pix,
        {
            let ghost mid = img@;
            let ghost x = pix as int % meta.width as int;
            let ghost y = pix as int / meta.width as int;
            proof {
                lemma_coordinates_of(meta.width as int, meta.height as int, pix as int);
                lemma_where_colors_lie(mid, meta, x, y);
                lemma_bilinear_at_kept(mid, before, meta, x, y, Color::Red);
                lemma_bilinear_at_kept(mid, before, meta, x, y, Color::Green);
                lemma_bilinear_at_kept(mid, before, meta, x, y, Color::Blue);
                assert(mid[native_index(meta, pix as int)] == before[native_index(
                    meta,
                    pix as int,
                )]);
            }
            match img.meta.color_at_index(pix) {
                Color::Red => {
                    let (green, blue) = Self::average_for_red(img, pix);
                    img.set_component(pix, Color::Green, green);
                    img.set_component(pix, Color::Blue, blue);
                },
                Color::Green => {
                    if img.meta.itoxy(pix).1 % 2 == 1 {
                        let (red, blue) = Self::average_for_yeven_green(img, pix);
                        img.set_component(pix, Color::Red, red);
                        img.set_component(pix, Color::Blue, blue);
                    } else {
                        let (blue, red) = Self::average_for_yodd_green(img, pix);
                        img.set_component(pix, Color::Red, red);
                        img.set_component(pix, Color::Blue, blue);
                    }
                },
                Color::Blue => {
                    let (red, green) = Self::average_for_blue(img, pix);
                    img.set_component(pix, Color::Red, red);
                    img.set_component(pix, Color::Green, green);
                },
            }
            proof {
                assert forall|k: int| 0 <= k < 3 * (pix + 1) implies img@[k] == bilinear(
                    before,
                    meta,
                )[k] by {
                    if k >= 3 * pix {
                        assert(k / 3 == pix);
                    } else {
                        assert(img@[k] == mid[k]);
                    }
                }
                assert forall|q: int| 0 <= q < meta.pixel_count() implies before[native_index(
                    meta,
                    q,
                )] == img@[#[trigger] native_index(meta, q)] by {
                    assert(mid[native_index(meta, q)] == before[native_index(meta, q)]);
                }
            }
            pix += 1;
        }
        assert(img@ =~= bilinear(before, meta));
    }

    /// Which edges of an image of `w` by `h` pixels the pixel at column `x`,
    /// row `y` touches: top, right, bottom, left.
    pub fn edges(w: u32, h: u32, x: u32, y: u32) -> (e: (bool, bool, bool, bool))
        requires
            w > 0,
            h > 0,
        ensures
            e == (y < 1, x >= w - 1, y >= h - 1, x < 1),
    {
        (y < 1, x >= w - 1, y >= h - 1, x < 1)
    }

    /// Adds the sample of channel `color` at column `x`, row `y` to a tally.
    fn add<T: Component>(img: &Image<Rgb, T>, x: u32, y: u32, color: Color, t: Tally) -> (r: Tally)
        requires
            img.wf(),
            in_grid(img.meta.width as int, img.meta.height as int, x as int, y as int),
            t.count < 4,
            t.sum <= t.count * T::max_level(),
        ensures
            r.count == t.count + 1,
            r.sum == t.sum + rgb_at(img@, img.meta.width as int, x as int, y as int, color),
            r.sum <= r.count * T::max_level(),
    {
        let v = img.component(x, y, color);
        proof {
            v.level_bounded();
            T::max_level_bounded();
            lemma_index_of(
                img.meta.width as int,
                img.meta.height as int,
                x as int,
                y as int,
            );
            assert((t.count + 1) * T::max_level() == t.count * T::max_level() + T::max_level())
                by (nonlinear_arith);
            assert(t.count * T::max_level() <= 3 * T::max_level()) by (nonlinear_arith)
                requires
                    t.count <= 3,
            ;
        }
        Tally { sum: t.sum + v.to_u64(), count: t.count + 1 }
    }

    /// Mean of channel `color` over the pixels above and below column `x`,
    /// row `y`.
    fn vertical<T: Component>(
        img: &Image<Rgb, T>,
        x: u32,
        y: u32,
        color: Color,
        e: (bool, bool, bool, bool),
    ) -> (m: T)
        requires
            img.wf(),
            in_grid(img.meta.width as int, img.meta.height as int, x as int, y as int),
            e == touched(img.meta, x as int, y as int),
        ensures
            m.level() == vertical_mean(img@, img.meta, x as int, y as int, color),
    {
        let (top, _, bottom, _) = e;
        let mut t = Tally { sum: 0, count: 0 };
        if !top {
            t = Self::add(img, x, y - 1, color, t);
        }
        if !bottom {
            t = Self::add(img, x, y + 1, color, t);
        }
        proof {
            lemma_index_of(img.meta.width as int, img.meta.height as int, x as int, y as int);
        }
        Self::mean(t, img.component(x, y, color))
    }

    /// Mean of channel `color` over the pixels left and right of column `x`,
    /// row `y`.
    fn horizontal<T: Component>(
        img: &Image<Rgb, T>,
        x: u32,
        y: u32,
        color: Color,
        e: (bool, bool, bool, bool),
    ) -> (m: T)
        requires
            img.wf(),
            in_grid(img.meta.width as int, img.meta.height as int, x as int, y as int),
            e == touched(img.meta, x as int, y as int),
        ensures
            m.level() == horizontal_mean(img@, img.meta, x as int, y as int, color),
    {
        let (_, right, _, left) = e;
        let mut t = Tally { sum: 0, count: 0 };
        if !left {
            t = Self::add(img, x - 1, y, color, t);
        }
        if !right {
            t = Self::add(img, x + 1, y, color, t);
        }
        proof {
            lemma_index_of(img.meta.width as int, img.meta.height as int, x as int, y as int);
        }
        Self::mean(t, img.component(x, y, color))
    }

    /// Mean of channel `color` over the pixels that share an edge with
    /// column `x`, row `y`.
    fn orthogonal<T: Component>(
        img: &Image<Rgb, T>,
        x: u32,
        y: u32,
        color: Color,
        e: (bool, bool, bool, bool),
    ) -> (m: T)
        requires
            img.wf(),
            in_grid(img.meta.width as int, img.meta.height as int, x as int, y as int),
            e == touched(img.meta, x as int, y as int),
        ensures
            m.level() == orthogonal_mean(img@, img.meta, x as int, y as int, color),
    {
        let (top, right, bottom, left) = e;
        let mut t = Tally { sum: 0, count: 0 };
        if !top {
            t = Self::add(img, x, y - 1, color, t);
        }
        if !right {
            t = Self::add(img, x + 1, y, color, t);
        }
        if !bottom {
            t = Self::add(img, x, y + 1, color, t);
        }
        if !left {
            t = Self::add(img, x - 1, y, color, t);
        }
        proof {
            lemma_index_of(img.meta.width as int, img.meta.height as int, x as int, y as int);
        }
        Self::mean(t, img.component(x, y, color))
    }

    /// Mean of channel `color` over the pixels that share only a corner with
    /// column `x`, row `y`.
    fn diagonal<T: Component>(
        img: &Image<Rgb, T>,
        x: u32,
        y: u32,
        color: Color,
        e: (bool, bool, bool, bool),
    ) -> (m: T)
        requires
            img.wf(),
            in_grid(img.meta.width as int, img.meta.height as int, x as int, y as int),
            e == touched(img.meta, x as int, y as int),
        ensures
            m.level() == diagonal_mean(img@, img.meta, x as int, y as int, color),
    {
        let (top, right, bottom, left) = e;
        let mut t = Tally { sum: 0, count: 0 };
        if !top && !right {
            t = Self::add(img, x + 1, y - 1, color, t);
        }
        if !bottom && !right {
            t = Self::add(img, x + 1, y + 1, color, t);
        }
        if !bottom && !left {
            t = Self::add(img, x - 1, y + 1, color, t);
        }
        if !top && !left {
            t = Self::add(img, x - 1, y - 1, color, t);
        }
        proof {
            lemma_index_of(img.meta.width as int, img.meta.height as int, x as int, y as int);
        }
        Self::mean(t, img.component(x, y, color))
    }

    /// Green and blue for the pixel of index `i`, as a red pixel needs them:
    /// green from the pixels that share an edge with it, blue from those that
    /// share a corner.
    pub fn average_for_red<T: Component>(img: &Image<Rgb, T>, i: usize) -> (r: (T, T))
        requires
            img.wf(),
            i < img.meta.pixel_count(),
        ensures
            r.0.level() == orthogonal_mean(
                img@,
                img.meta,
                i as int % img.meta.width as int,
                i as int / img.meta.width as int,
                Color::Green,
            ),
            r.1.level() == diagonal_mean(
                img@,
                img.meta,
                i as int % img.meta.width as int,
                i as int / img.meta.width as int,
                Color::Blue,
            ),
    {
        proof {
            lemma_coordinates_of(img.meta.width as int, img.meta.height as int, i as int);
        }
        let (x, y) = img.meta.itoxy(i);
        let e = Self::edges(img.meta.width, img.meta.height, x, y);
        (Self::orthogonal(img, x, y, Color::Green, e), Self::diagonal(img, x, y, Color::Blue, e))
    }

    /// Red and blue for the pixel of index `i`, as a green pixel between two
    /// blue ones needs them: red from the pixels above and below, blue from
    /// those left and right.
    pub fn average_for_yeven_green<T: Component>(img: &Image<Rgb, T>, i: usize) -> (r: (T, T))
        requires
            img.wf(),
            i < img.meta.pixel_count(),
        ensures
            r.0.level() == vertical_mean(
                img@,
                img.meta,
                i as int % img.meta.width as int,
                i as int / img.meta.width as int,
                Color::Red,
            ),
            r.1.level() == horizontal_mean(
                img@,
                img.meta,
                i as int % img.meta.width as int,
                i as int / img.meta.width as int,
                Color::Blue,
            ),
    {
        proof {
            lemma_coordinates_of(img.meta.width as int, img.meta.height as int, i as int);
        }
        let (x, y) = img.meta.itoxy(i);
        let e = Self::edges(img.meta.width, img.meta.height, x, y);
        (Self::vertical(img, x, y, Color::Red, e), Self::horizontal(img, x, y, Color::Blue, e))
    }

    /// Blue and red for the pixel of index `i`, as a green pixel between two
    /// red ones needs them: blue from the pixels above and below, red from
    /// those left and right.
    pub fn average_for_yodd_green<T: Component>(img: &Image<Rgb, T>, i: usize) -> (r: (T, T))
        requires
            img.wf(),
            i < img.meta.pixel_count(),
        ensures
            r.0.level() == vertical_mean(
                img@,
                img.meta,
                i as int % img.meta.width as int,
                i as int / img.meta.width as int,
                Color::Blue,
            ),
            r.1.level() == horizontal_mean(
                img@,
                img.meta,
                i as int % img.meta.width as int,
                i as int / img.meta.width as int,
                Color::Red,
            ),
    {
        proof {
            lemma_coordinates_of(img.meta.width as int, img.meta.height as int, i as int);
        }
        let (x, y) = img.meta.itoxy(i);
        let e = Self::edges(img.meta.width, img.meta.height, x, y);
        (Self::vertical(img, x, y, Color::Blue, e), Self::horizontal(img, x, y, Color::Red, e))
    }

    /// Red and green for the pixel of index `i`, as a blue pixel needs them:
    /// red from the pixels that share a corner with it, green from those that
    /// share an edge.
    pub fn average_for_blue<T: Component>(img: &Image<Rgb, T>, i: usize) -> (r: (T, T))
        requires
            img.wf(),
            i < img.meta.pixel_count(),
        ensures
            r.0.level() == diagonal_mean(
                img@,
                img.meta,
                i as int % img.meta.width as int,
                i as int / img.meta.width as int,
                Color::Red,
            ),
            r.1.level() == orthogonal_mean(
                img@,
                img.meta,
                i as int % img.meta.width as int,
                i as int / img.meta.width as int,
                Color::Green,
            ),
    {
        proof {
            lemma_coordinates_of(img.meta.width as int, img.meta.height as int, i as int);
        }
        let (x, y) = img.meta.itoxy(i);
        let e = Self::edges(img.meta.width, img.meta.height, x, y);
        (Self::diagonal(img, x, y, Color::Red, e), Self::orthogonal(img, x, y, Color::Green, e))
    }

    /// The mean of a tally, rounded down; `otherwise` where nothing was added.
    fn mean<T: Component>(t: Tally, otherwise: T) -> (m: T)
        requires
            t.sum <= t.count * T::max_level(),
        ensures
            m.level() == mean_or(t.sum as nat, t.count as nat, otherwise.level()),
    {
        if t.count == 0 {
            otherwise
        } else {
            proof {
                let sum = t.sum as int;
                let count = t.count as int;
                let max = T::max_level() as int;
                assert(sum / count <= max) by (nonlinear_arith)
                    requires
                        0 <= sum <= count * max,
                        0 < count,
                ;
            }
            T::from_u64(t.sum / t.count)
        }
    }
}

} // verus!
