use vstd::prelude::*;
use crate::bounds::Bounds;
use crate::ticks::{fdiv, floor_div};

verus! {

/// Left edge of the plot area, in pixels.
pub const PLOT_X0: i64 = 90;

/// Right edge of the plot area.
pub const PLOT_X1: i64 = 770;

/// Top edge of the plot area.
pub const PLOT_Y0: i64 = 60;

/// Bottom edge of the plot area; also the histogram and fill baseline.
pub const PLOT_Y1: i64 = 430;

/// The horizontal screen position of data value `v` on the axis
/// `lo ..= hi`: a linear map onto the plot area's width.
pub open spec fn sx(v: int, lo: int, hi: int) -> int {
    PLOT_X0 + fdiv((v - lo) * (PLOT_X1 - PLOT_X0) as int, hi - lo)
}

/// The vertical screen position of data value `v` on the axis
/// `lo ..= hi`: the same linear map, flipped because the canvas origin
/// sits at the top while the data origin sits at the bottom.
pub open spec fn sy(v: int, lo: int, hi: int) -> int {
    PLOT_Y1 - fdiv((v - lo) * (PLOT_Y1 - PLOT_Y0) as int, hi - lo)
}

/// A value between `lo` and `hi` maps into `0 ..= extent`.
proof fn lemma_scale_in_range(v: int, lo: int, hi: int, extent: int)
    requires
        lo < hi,
        lo <= v <= hi,
        1 <= extent,
    ensures
        0 <= fdiv((v - lo) * extent, hi - lo) <= extent,
{
    let span = hi - lo;
    let num = (v - lo) * extent;
    assert(0 <= (v - lo) * extent <= (hi - lo) * extent) by (nonlinear_arith)
        requires lo <= v <= hi && 1 <= extent;
    vstd::arithmetic::div_mod::lemma_div_is_ordered(0, num, span);
    vstd::arithmetic::div_mod::lemma_div_is_ordered(num, span * extent, span);
    vstd::arithmetic::div_mod::lemma_div_multiples_vanish(extent, span);
    assert(span * extent == extent * span);
    assert(fdiv(0, span) == 0) by {
        vstd::arithmetic::div_mod::lemma_div_basics(span);
    }
}

/// Horizontal transform of a value inside the padded x bounds.
pub fn to_sx(v: i128, b: &Bounds) -> (r: i64)
    requires
        b.wf(),
        b.min_x <= v <= b.max_x,
    ensures
        r == sx(v as int, b.min_x as int, b.max_x as int),
        PLOT_X0 <= r <= PLOT_X1,
{
    let num = (v - b.min_x) * ((PLOT_X1 - PLOT_X0) as i128);
    let span = b.max_x - b.min_x;
    proof {
        assert(0 <= num <= span * 680) by (nonlinear_arith)
            requires 0 <= v - b.min_x <= span && num == (v - b.min_x) * 680;
        lemma_scale_in_range(v as int, b.min_x as int, b.max_x as int, 680);
    }
    let q = floor_div(num, span);
    PLOT_X0 + (q as i64)
}

/// Vertical transform of a value inside the padded y bounds.
pub fn to_sy(v: i128, b: &Bounds) -> (r: i64)
    requires
        b.wf(),
        b.min_y <= v <= b.max_y,
    ensures
        r == sy(v as int, b.min_y as int, b.max_y as int),
        PLOT_Y0 <= r <= PLOT_Y1,
{
    let num = (v - b.min_y) * ((PLOT_Y1 - PLOT_Y0) as i128);
    let span = b.max_y - b.min_y;
    proof {
        assert(0 <= num <= span * 370) by (nonlinear_arith)
            requires 0 <= v - b.min_y <= span && num == (v - b.min_y) * 370;
        lemma_scale_in_range(v as int, b.min_y as int, b.max_y as int, 370);
    }
    let q = floor_div(num, span);
    PLOT_Y1 - (q as i64)
}

} // verus!
