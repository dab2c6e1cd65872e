//! Corrections applied to a sensor reading before it becomes a colour image.

use vstd::prelude::*;
use crate::color::Color;
use crate::component::Component;
use crate::grid::lemma_coordinates_of;
use crate::image::{Image, Sensor};
use crate::metadata::Metadata;

verus! {

/// The black level of the colour `c`, out of one level per colour.
pub open spec fn black_level(c: Color, red: nat, green: nat, blue: nat) -> nat {
    match c {
        Color::Red => red,
        Color::Green => green,
        Color::Blue => blue,
    }
}

/// A level after the black level is taken off: the difference, or zero where
/// the level lies below the black level.
pub open spec fn above_black(level: nat, black: nat) -> nat {
    if level < black {
        0
    } else {
        (level - black) as nat
    }
}

/// The levels of a sensor reading after the black level of its colour is
/// taken off each sample.
pub open spec fn darkened(s: Seq<nat>, meta: Metadata, red: nat, green: nat, blue: nat) -> Seq<
    nat,
> {
    Seq::new(
        s.len(),
        |i: int| above_black(s[i], black_level(meta.color_of_index(i), red, green, blue)),
    )
}

/// Corrections on whole images.
pub struct Processor {}

impl Processor {
    /// Takes the black level of its colour off every sample of a sensor
    /// reading. A sample below its black level becomes zero.
    pub fn black_levels<T: Component>(rimg: &mut Image<Sensor, T>, red: T, green: T, blue: T)
        requires
            old(rimg).wf(),
        ensures
            final(rimg).wf(),
            final(rimg).meta == old(rimg).meta,
            final(rimg)@ == darkened(
                old(rimg)@,
                old(rimg).meta,
                red.level(),
                green.level(),
                blue.level(),
            ),
    {
        let ghost before = rimg@;
        let ghost meta = rimg.meta;
        let n = rimg.data.len();
        let mut i: usize = 0;
        while i < n
            invariant
                i <= n,
                n == rimg.data.len(),
                rimg.meta == meta,
                rimg.wf(),
                rimg@.len() == before.len(),
                forall|k: int|
                    0 <= k < i ==> rimg@[k] == darkened(
                        before,
                        meta,
                        red.level(),
                        green.level(),
                        blue.level(),
                    )[k],
                forall|k: int| i <= k < n ==> rimg@[k] == before[k],
            decreases n - i,
        {
            proof {
                lemma_coordinates_of(meta.width as int, meta.height as int, i as int);
            }
            let ghost mid = rimg@;
            let light = rimg.data[i];
            let black = match rimg.meta.color_at_index(i) {
                Color::Red => red,
                Color::Green => green,
                Color::Blue => blue,
            };
            let above = if light.to_u64() < black.to_u64() {
                T::zero()
            } else {
                proof {
                    light.level_bounded();
                }
                T::from_u64(light.to_u64() - black.to_u64())
            };
            rimg.data[i] = above;
            proof {
                assert(mid[i as int] == before[i as int]);
                assert forall|k: int| 0 <= k < i + 1 implies rimg@[k] == darkened(
                    before,
                    meta,
                    red.level(),
                    green.level(),
                    blue.level(),
                )[k] by {
                    if k < i {
                        assert(rimg@[k] == mid[k]);
                    }
                }
                assert forall|k: int| i + 1 <= k < n implies rimg@[k] == before[k] by {
                    assert(rimg@[k] == mid[k]);
                }
            }
            i += 1;
        }
        assert(rimg@ =~= darkened(before, meta, red.level(), green.level(), blue.level()));
    }
}

} // verus!
