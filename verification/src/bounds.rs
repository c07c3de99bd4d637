use vstd::prelude::*;
use crate::point::Point;

verus! {

/// Magnitude that every padded bound stays within (used to keep the
/// later transform arithmetic inside `i128`).
pub const BOUND_LIMIT: i128 = 0x1_0000_0000_0000_0000;

pub open spec fn imin(a: int, b: int) -> int {
    if a < b {
        a
    } else {
        b
    }
}

pub open spec fn imax(a: int, b: int) -> int {
    if a < b {
        b
    } else {
        a
    }
}

/// All points of all series, one sequence after the other.
pub open spec fn flat_pts(ss: Seq<Seq<Point>>) -> Seq<Point>
    decreases ss.len(),
{
    if ss.len() == 0 {
        Seq::<Point>::empty()
    } else {
        flat_pts(ss.drop_last()) + ss.last()
    }
}

/// The running-extremes fold of the bounds pass: whether a finite point
/// has been seen yet, and the least and greatest finite x and y so far.
/// Non-finite coordinates are skipped.
pub open spec fn fold_state(s: Seq<Point>) -> (bool, int, int, int, int)
    decreases s.len(),
{
    if s.len() == 0 {
        (false, 0int, 0int, 0int, 0int)
    } else {
        let st = fold_state(s.drop_last());
        let p = s.last();
        if !p.is_finite() {
            st
        } else if !st.0 {
            (true, p.x.value(), p.x.value(), p.y.value(), p.y.value())
        } else {
            (
                true,
                imin(st.1, p.x.value()),
                imax(st.2, p.x.value()),
                imin(st.3, p.y.value()),
                imax(st.4, p.y.value()),
            )
        }
    }
}

/// The unpadded bounding box: the extremes of the finite points, or the
/// fallback unit box when no finite point exists anywhere.
pub open spec fn raw_box(ss: Seq<Seq<Point>>) -> (int, int, int, int) {
    let st = fold_state(flat_pts(ss));
    if st.0 {
        (st.1, st.2, st.3, st.4)
    } else {
        (0int, 1000int, 0int, 1000int)
    }
}

/// Symmetric padding of one axis: a tenth of the span plus one unit on
/// each side; a zero span is replaced by a fixed minimum span of one
/// data unit (five hundred thousandths on each side).
pub open spec fn pad_lo(lo: int, hi: int) -> int {
    if hi == lo {
        lo - 500
    } else {
        lo - ((hi - lo) / 10 + 1)
    }
}

pub open spec fn pad_hi(lo: int, hi: int) -> int {
    if hi == lo {
        hi + 500
    } else {
        hi + ((hi - lo) / 10 + 1)
    }
}

/// The padded bounding box common to every series of the chart.
pub struct Bounds {
    pub min_x: i128,
    pub max_x: i128,
    pub min_y: i128,
    pub max_y: i128,
}

/// What the bounds pass yields for the given series.
pub open spec fn padded_box(ss: Seq<Seq<Point>>) -> (int, int, int, int) {
    let rb = raw_box(ss);
    (pad_lo(rb.0, rb.1), pad_hi(rb.0, rb.1), pad_lo(rb.2, rb.3), pad_hi(rb.2, rb.3))
}

impl Bounds {
    pub open spec fn matches(self, ss: Seq<Seq<Point>>) -> bool {
        let pb = padded_box(ss);
        self.min_x == pb.0 && self.max_x == pb.1 && self.min_y == pb.2 && self.max_y == pb.3
    }

    /// What every later stage needs of a padded box: proper extent on
    /// both axes, and magnitudes small enough for the transform.
    pub open spec fn wf(self) -> bool {
        self.min_x + 3 <= self.max_x && self.min_y + 3 <= self.max_y && -BOUND_LIMIT <= self.min_x
            && self.max_x <= BOUND_LIMIT && -BOUND_LIMIT <= self.min_y && self.max_y <= BOUND_LIMIT
    }
}

/// The fold only ever yields values of finite points, so its extremes
/// stay within the fixed-point value range, and every finite point of
/// the folded sequence lies within them.
proof fn lemma_fold_state_sound(s: Seq<Point>)
    ensures
        fold_state(s).0 ==> {
            let st = fold_state(s);
            i64::MIN <= st.1 <= st.2 <= i64::MAX && i64::MIN <= st.3 <= st.4 <= i64::MAX
        },
        forall|i: int|
            0 <= i < s.len() && s[i].is_finite() ==> {
                let st = fold_state(s);
                st.0 && st.1 <= s[i].x.value() <= st.2 && st.3 <= s[i].y.value() <= st.4
            },
    decreases s.len(),
{
    if s.len() > 0 {
        lemma_fold_state_sound(s.drop_last());
        assert(forall|i: int| 0 <= i < s.len() - 1 ==> s[i] == s.drop_last()[i]);
    }
}

/// A non-finite point placed anywhere leaves the bounds fold unchanged.
pub proof fn lemma_nonfinite_no_bounds(a: Seq<Point>, p: Point, b: Seq<Point>)
    requires
        !p.is_finite(),
    ensures
        fold_state(a + seq![p] + b) == fold_state(a + b),
    decreases b.len(),
{
    if b.len() == 0 {
        assert((a + seq![p] + b).drop_last() =~= a);
        assert((a + seq![p] + b).last() == p);
        assert(a + b =~= a);
    } else {
        lemma_nonfinite_no_bounds(a, p, b.drop_last());
        assert((a + seq![p] + b).drop_last() =~= a + seq![p] + b.drop_last());
        assert((a + b).drop_last() =~= a + b.drop_last());
        assert((a + seq![p] + b).last() == b.last());
        assert((a + b).last() == b.last());
    }
}

/// Gather every series' points into one vector, in order.
fn concat_all(series: &Vec<Vec<Point>>) -> (r: Vec<Point>)
    ensures
        r@ == flat_pts(series@.map_values(|v: Vec<Point>| v@)),
{
    let ghost ss = series@.map_values(|v: Vec<Point>| v@);
    let mut r: Vec<Point> = Vec::new();
    let mut i: usize = 0;
    while i < series.len()
        invariant
            i <= series.len(),
            ss == series@.map_values(|v: Vec<Point>| v@),
            r@ == flat_pts(ss.take(i as int)),
        decreases series.len() - i,
    {
        let s = &series[i];
        let mut j: usize = 0;
        while j < s.len()
            invariant
                j <= s.len(),
                i < series.len(),
                s == &series[i as int],
                ss == series@.map_values(|v: Vec<Point>| v@),
                r@ == flat_pts(ss.take(i as int)) + s@.take(j as int),
            decreases s.len() - j,
        {
            r.push(s[j]);
            proof {
                assert(s@.take(j + 1 as int) =~= s@.take(j as int).push(s@[j as int]));
                assert(r@ =~= flat_pts(ss.take(i as int)) + s@.take(j + 1 as int));
            }
            j += 1;
        }
        proof {
            assert(ss.take(i + 1 as int).drop_last() =~= ss.take(i as int));
            assert(ss.take(i + 1 as int).last() == ss[i as int]);
            assert(s@.take(j as int) =~= ss[i as int]);
            assert(r@ =~= flat_pts(ss.take(i + 1 as int)));
        }
        i += 1;
    }
    proof {
        assert(ss.take(i as int) =~= ss);
    }
    r
}

/// The bounds pass: fold the finite points of every series' first
/// traversal into a raw box (or the fallback unit box when there are
/// none), then pad each axis.
pub fn compute_bounds(series: &Vec<Vec<Point>>) -> (b: Bounds)
    ensures
        b.matches(series@.map_values(|v: Vec<Point>| v@)),
        b.wf(),
        forall|si: int, pi: int|
            0 <= si < series@.len() && 0 <= pi < series@[si]@.len() && series@[si]@[pi].is_finite()
                ==> b.min_x <= series@[si]@[pi].x.value() <= b.max_x && b.min_y
                <= series@[si]@[pi].y.value() <= b.max_y,
{
    let ghost ss = series@.map_values(|v: Vec<Point>| v@);
    let all = concat_all(series);
    let mut have: bool = false;
    let mut minx: i64 = 0;
    let mut maxx: i64 = 0;
    let mut miny: i64 = 0;
    let mut maxy: i64 = 0;
    let mut k: usize = 0;
    while k < all.len()
        invariant
            k <= all.len(),
            all@ == flat_pts(ss),
            fold_state(all@.take(k as int)) == (
                have,
                minx as int,
                maxx as int,
                miny as int,
                maxy as int,
            ) || (!have && !fold_state(all@.take(k as int)).0),
            have == fold_state(all@.take(k as int)).0,
            have ==> fold_state(all@.take(k as int)) == (
                true,
                minx as int,
                maxx as int,
                miny as int,
                maxy as int,
            ),
        decreases all.len() - k,
    {
        let p = all[k];
        proof {
            assert(all@.take(k + 1 as int).drop_last() =~= all@.take(k as int));
            assert(all@.take(k + 1 as int).last() == all@[k as int]);
        }
        if p.finite() {
            let px = match p.x {
                crate::point::Coord::Finite(v) => v,
                crate::point::Coord::NonFinite => 0,
            };
            let py = match p.y {
                crate::point::Coord::Finite(v) => v,
                crate::point::Coord::NonFinite => 0,
            };
            if !have {
                have = true;
                minx = px;
                maxx = px;
                miny = py;
                maxy = py;
            } else {
                if px < minx {
                    minx = px;
                }
                if px > maxx {
                    maxx = px;
                }
                if py < miny {
                    miny = py;
                }
                if py > maxy {
                    maxy = py;
                }
            }
        }
        k += 1;
    }
    proof {
        assert(all@.take(k as int) =~= all@);
        lemma_fold_state_sound(all@);
    }
    let (rminx, rmaxx, rminy, rmaxy): (i128, i128, i128, i128) = if have {
        (minx as i128, maxx as i128, miny as i128, maxy as i128)
    } else {
        (0, 1000, 0, 1000)
    };
    let b = Bounds {
        min_x: pad_lo_exec(rminx, rmaxx),
        max_x: pad_hi_exec(rminx, rmaxx),
        min_y: pad_lo_exec(rminy, rmaxy),
        max_y: pad_hi_exec(rminy, rmaxy),
    };
    proof {
        lemma_points_in_padded(ss, all@, b);
        assert forall|si: int, pi: int|
            0 <= si < series@.len() && 0 <= pi < series@[si]@.len()
                && series@[si]@[pi].is_finite() implies b.min_x <= series@[si]@[pi].x.value()
            <= b.max_x && b.min_y <= series@[si]@[pi].y.value() <= b.max_y by {
            assert(ss[si] == series@[si]@);
        }
    }
    b
}

/// Every finite point of the flattened series lies inside the padded box.
proof fn lemma_points_in_padded(ss: Seq<Seq<Point>>, all: Seq<Point>, b: Bounds)
    requires
        all == flat_pts(ss),
        b.matches(ss),
    ensures
        forall|si: int, pi: int|
            0 <= si < ss.len() && 0 <= pi < ss[si].len() && ss[si][pi].is_finite() ==> b.min_x
                <= ss[si][pi].x.value() <= b.max_x && b.min_y <= ss[si][pi].y.value() <= b.max_y,
{
    lemma_fold_state_sound(all);
    assert forall|si: int, pi: int|
        0 <= si < ss.len() && 0 <= pi < ss[si].len() && ss[si][pi].is_finite() implies b.min_x
        <= ss[si][pi].x.value() <= b.max_x && b.min_y <= ss[si][pi].y.value() <= b.max_y by {
        lemma_flat_contains(ss, si, pi);
        let k = flat_index(ss, si, pi);
        assert(all[k] == ss[si][pi]);
    }
}

/// The position of series point `(si, pi)` in the flattened sequence.
pub open spec fn flat_index(ss: Seq<Seq<Point>>, si: int, pi: int) -> int {
    flat_pts(ss.take(si)).len() + pi
}

proof fn lemma_flat_contains(ss: Seq<Seq<Point>>, si: int, pi: int)
    requires
        0 <= si < ss.len(),
        0 <= pi < ss[si].len(),
    ensures
        0 <= flat_index(ss, si, pi) < flat_pts(ss).len(),
        flat_pts(ss)[flat_index(ss, si, pi)] == ss[si][pi],
    decreases ss.len(),
{
    if si == ss.len() - 1 {
        assert(ss.drop_last() =~= ss.take(si));
        assert(flat_pts(ss) == flat_pts(ss.take(si)) + ss.last());
    } else {
        lemma_flat_contains(ss.drop_last(), si, pi);
        assert(ss.drop_last().take(si) =~= ss.take(si));
        assert(ss.drop_last()[si] == ss[si]);
        assert(flat_pts(ss) == flat_pts(ss.drop_last()) + ss.last());
    }
}

/// Lower padded edge of one axis.
fn pad_lo_exec(lo: i128, hi: i128) -> (r: i128)
    requires
        -0x8000_0000_0000_0000 <= lo <= hi <= 0x8000_0000_0000_0000,
    ensures
        r == pad_lo(lo as int, hi as int),
        -BOUND_LIMIT <= r,
        r <= lo - 1,
        lo == hi ==> r == lo - 500,
    {
    if hi == lo {
        lo - 500
    } else {
        let span = hi - lo;
        let tenth = span / 10;
        proof {
            assert(0 <= tenth <= span) by (nonlinear_arith)
                requires span >= 1 && tenth == span / 10;
        }
        lo - (tenth + 1)
    }
}

/// Upper padded edge of one axis.
fn pad_hi_exec(lo: i128, hi: i128) -> (r: i128)
    requires
        -0x8000_0000_0000_0000 <= lo <= hi <= 0x8000_0000_0000_0000,
    ensures
        r == pad_hi(lo as int, hi as int),
        r <= BOUND_LIMIT,
        r >= hi + 1,
        lo == hi ==> r == hi + 500,
    {
    if hi == lo {
        hi + 500
    } else {
        let span = hi - lo;
        let tenth = span / 10;
        proof {
            assert(0 <= tenth <= span) by (nonlinear_arith)
                requires span >= 1 && tenth == span / 10;
        }
        hi + (tenth + 1)
    }
}

} // verus!
