//! Row-major addressing of a pixel grid: the arithmetic between a pixel's
//! coordinates and its index.

use vstd::prelude::*;
use vstd::arithmetic::div_mod::{lemma_fundamental_div_mod, lemma_fundamental_div_mod_converse};
use vstd::arithmetic::mul::lemma_mul_inequality;

verus! {

/// Index of the pixel at column `x`, row `y`, in a grid `w` pixels wide.
pub open spec fn index_of(w: int, x: int, y: int) -> int {
    y * w + x
}

/// Whether column `x`, row `y` lies in a grid of `w` by `h` pixels.
pub open spec fn in_grid(w: int, h: int, x: int, y: int) -> bool {
    0 <= x < w && 0 <= y < h
}

/// A pixel of the grid has an index below the number of pixels, and its
/// coordinates are recovered from the index by remainder and quotient.
pub proof fn lemma_index_of(w: int, h: int, x: int, y: int)
    requires
        in_grid(w, h, x, y),
    ensures
        0 <= index_of(w, x, y) < w * h,
        index_of(w, x, y) % w == x,
        index_of(w, x, y) / w == y,
{
    lemma_mul_inequality(y + 1, h, w);
    assert((y + 1) * w == y * w + w) by (nonlinear_arith);
    assert(0 <= y * w) by (nonlinear_arith)
        requires
            0 <= y,
            0 <= w,
    ;
    lemma_fundamental_div_mod_converse(y * w + x, w, y, x);
}

/// An index below the number of pixels belongs to exactly one pixel of the
/// grid: the one at column `i % w`, row `i / w`.
pub proof fn lemma_coordinates_of(w: int, h: int, i: int)
    requires
        0 < w,
        0 <= i < w * h,
    ensures
        in_grid(w, h, i % w, i / w),
        index_of(w, i % w, i / w) == i,
{
    lemma_fundamental_div_mod(i, w);
    assert(w * (i / w) == (i / w) * w) by (nonlinear_arith);
    assert(0 <= i / w) by (nonlinear_arith)
        requires
            0 <= i,
            0 < w,
    ;
    if i / w >= h {
        lemma_mul_inequality(h, i / w, w);
        assert(h * w == w * h) by (nonlinear_arith);
    }
}

} // verus!
