use vstd::prelude::*;
use crate::bounds::{imax, Bounds};
use crate::numfmt::{dec_int, dec_nat, fmt_int, fmt_nat};
use crate::point::{finite_only, Coord, Point};
use crate::sink::{put_single, single_markup, written, xml_safe};
use crate::transform::{sx, sy, to_sx, to_sy, PLOT_Y1};

verus! {

/// Default width of the last histogram bar, in pixels.
pub const DEFAULT_BAR_W: i64 = 10;

/// Every finite point of `s` lies inside the box.
pub open spec fn pts_in_box(s: Seq<Point>, b: Bounds) -> bool {
    forall|i: int|
        0 <= i < s.len() && s[i].is_finite() ==> b.min_x <= s[i].x.value() <= b.max_x && b.min_y
            <= s[i].y.value() <= b.max_y
}

/// Filtering to the finite points keeps every point inside the box, and
/// leaves only finite points.
pub proof fn lemma_finite_only_in_box(s: Seq<Point>, b: Bounds)
    requires
        pts_in_box(s, b),
    ensures
        pts_in_box(finite_only(s), b),
        forall|j: int| 0 <= j < finite_only(s).len() ==> (#[trigger] finite_only(s)[j]).is_finite(),
    decreases s.len(),
{
    if s.len() > 0 {
        assert(forall|i: int| 0 <= i < s.len() - 1 ==> s.drop_last()[i] == s[i]);
        lemma_finite_only_in_box(s.drop_last(), b);
    }
}

/// The element tags the renderer uses are plain names.
pub proof fn lemma_tags_safe()
    ensures
        xml_safe("circle"@),
        xml_safe("rect"@),
        xml_safe("path"@),
        xml_safe("line"@),
        xml_safe("text"@),
        xml_safe("style"@),
{
    reveal_strlit("circle");
    reveal_strlit("rect");
    reveal_strlit("path");
    reveal_strlit("line");
    reveal_strlit("text");
    reveal_strlit("style");
}

/// The numeric value of a finite coordinate.
fn coord_val(c: Coord) -> (r: i64)
    requires
        c.is_finite(),
    ensures
        r as int == c.value(),
{
    match c {
        Coord::Finite(v) => v,
        Coord::NonFinite => 0,
    }
}

/// The finite points, in order, as a fresh vector.
pub fn filter_finite(v: &Vec<Point>) -> (r: Vec<Point>)
    ensures
        r@ == finite_only(v@),
{
    let mut r: Vec<Point> = Vec::new();
    let mut i: usize = 0;
    while i < v.len()
        invariant
            i <= v.len(),
            r@ == finite_only(v@.take(i as int)),
        decreases v.len() - i,
    {
        let p = v[i];
        proof {
            assert(v@.take(i + 1 as int).drop_last() =~= v@.take(i as int));
            assert(v@.take(i + 1 as int).last() == v@[i as int]);
        }
        if p.finite() {
            r.push(p);
            proof {
                assert(r@ =~= finite_only(v@.take(i + 1 as int)));
            }
        }
        i += 1;
    }
    proof {
        assert(v@.take(i as int) =~= v@);
    }
    r
}

// ---------------------------------------------------------------- attributes
pub open spec fn circle_attrs(c: int, x: int, y: int) -> Seq<char> {
    "class=\"poloto"@ + dec_nat(c) + "stroke\" cx=\""@ + dec_int(x) + "\" cy=\""@ + dec_int(y)
        + "\" r=\"4\""@
}

fn circle_attrs_str(c: usize, x: i64, y: i64) -> (r: String)
    ensures
        r@ == circle_attrs(c as int, x as int, y as int),
{
    let mut s = String::from_str("class=\"poloto");
    let cs = fmt_nat(c as i128);
    s.append(cs.as_str());
    s.append("stroke\" cx=\"");
    let xs = fmt_int(x as i128);
    s.append(xs.as_str());
    s.append("\" cy=\"");
    let ys = fmt_int(y as i128);
    s.append(ys.as_str());
    s.append("\" r=\"4\"");
    s
}

pub open spec fn rect_attrs(c: int, x: int, y: int, w: int, h: int) -> Seq<char> {
    "class=\"poloto"@ + dec_nat(c) + "fill\" x=\""@ + dec_int(x) + "\" y=\""@ + dec_int(y)
        + "\" width=\""@ + dec_int(w) + "\" height=\""@ + dec_int(h) + "\""@
}

fn rect_attrs_str(c: usize, x: i64, y: i64, w: i64, h: i64) -> (r: String)
    ensures
        r@ == rect_attrs(c as int, x as int, y as int, w as int, h as int),
{
    let mut s = String::from_str("class=\"poloto");
    let cs = fmt_nat(c as i128);
    s.append(cs.as_str());
    s.append("fill\" x=\"");
    let xs = fmt_int(x as i128);
    s.append(xs.as_str());
    s.append("\" y=\"");
    let ys = fmt_int(y as i128);
    s.append(ys.as_str());
    s.append("\" width=\"");
    let ws = fmt_int(w as i128);
    s.append(ws.as_str());
    s.append("\" height=\"");
    let hs = fmt_int(h as i128);
    s.append(hs.as_str());
    s.append("\"");
    s
}

pub open spec fn stroke_path_attrs(c: int, d: Seq<char>) -> Seq<char> {
    "class=\"poloto"@ + dec_nat(c) + "stroke\" fill=\"none\" stroke=\"black\" d=\""@ + d + "\""@
}

pub fn stroke_path_attrs_str(c: usize, d: &str) -> (r: String)
    ensures
        r@ == stroke_path_attrs(c as int, d@),
{
    let mut s = String::from_str("class=\"poloto");
    let cs = fmt_nat(c as i128);
    s.append(cs.as_str());
    s.append("stroke\" fill=\"none\" stroke=\"black\" d=\"");
    s.append(d);
    s.append("\"");
    s
}

pub open spec fn fill_path_attrs(c: int, d: Seq<char>) -> Seq<char> {
    "class=\"poloto"@ + dec_nat(c) + "fill\" stroke=\"none\" d=\""@ + d + "\""@
}

pub fn fill_path_attrs_str(c: usize, d: &str) -> (r: String)
    ensures
        r@ == fill_path_attrs(c as int, d@),
{
    let mut s = String::from_str("class=\"poloto");
    let cs = fmt_nat(c as i128);
    s.append(cs.as_str());
    s.append("fill\" stroke=\"none\" d=\"");
    s.append(d);
    s.append("\"");
    s
}

// ------------------------------------------------------------------- scatter
/// One scatter marker.
pub open spec fn circle_elem(p: Point, b: Bounds, c: int) -> Seq<char> {
    single_markup(
        "circle"@,
        circle_attrs(
            c,
            sx(p.x.value(), b.min_x as int, b.max_x as int),
            sy(p.y.value(), b.min_y as int, b.max_y as int),
        ),
    )
}

/// The markers of the first `i` points of an already-filtered sequence.
pub open spec fn scatter_upto(fp: Seq<Point>, b: Bounds, c: int, i: int) -> Seq<char>
    decreases i,
{
    if i <= 0 {
        Seq::<char>::empty()
    } else {
        scatter_upto(fp, b, c, i - 1) + circle_elem(fp[i - 1], b, c)
    }
}

/// The whole scatter geometry of a series: one marker per finite point.
pub open spec fn scatter_markup(pts: Seq<Point>, b: Bounds, c: int) -> Seq<char> {
    scatter_upto(finite_only(pts), b, c, finite_only(pts).len() as int)
}

/// Emit the scatter markers of the (already filtered) finite points.
pub fn emit_scatter(w: &mut tagger::ElemWriter<String>, fv: &Vec<Point>, b: &Bounds, c: usize)
    requires
        b.wf(),
        pts_in_box(fv@, *b),
        forall|i: int| 0 <= i < fv@.len() ==> fv@[i].is_finite(),
    ensures
        written(*final(w)) == written(*old(w)) + scatter_upto(fv@, *b, c as int, fv@.len() as int),
{
    let ghost base = written(*w);
    let mut i: usize = 0;
    while i < fv.len()
        invariant
            i <= fv.len(),
            b.wf(),
            pts_in_box(fv@, *b),
            forall|k: int| 0 <= k < fv@.len() ==> fv@[k].is_finite(),
            written(*w) == base + scatter_upto(fv@, *b, c as int, i as int),
        decreases fv.len() - i,
    {
        let p = fv[i];
        let x = to_sx(coord_val(p.x) as i128, b);
        let y = to_sy(coord_val(p.y) as i128, b);
        let attrs = circle_attrs_str(c, x, y);
        proof {
            lemma_tags_safe();
        }
        put_single(w, "circle", attrs.as_str());
        proof {
            assert(written(*w) =~= base + scatter_upto(fv@, *b, c as int, i + 1 as int));
        }
        i += 1;
    }
}

// ----------------------------------------------------------------- histogram
/// One histogram bar: its left edge at point `i`, its width the distance
/// to the next point (never negative), or a default width for the last
/// bar; its height from the point down to the plot baseline.
pub open spec fn rect_elem(fp: Seq<Point>, b: Bounds, c: int, i: int) -> Seq<char> {
    let x = sx(fp[i].x.value(), b.min_x as int, b.max_x as int);
    let y = sy(fp[i].y.value(), b.min_y as int, b.max_y as int);
    let w = if i + 1 < fp.len() {
        imax(sx(fp[i + 1].x.value(), b.min_x as int, b.max_x as int) - x, 0)
    } else {
        DEFAULT_BAR_W as int
    };
    single_markup("rect"@, rect_attrs(c, x, y, w, PLOT_Y1 - y))
}

pub open spec fn histo_upto(fp: Seq<Point>, b: Bounds, c: int, i: int) -> Seq<char>
    decreases i,
{
    if i <= 0 {
        Seq::<char>::empty()
    } else {
        histo_upto(fp, b, c, i - 1) + rect_elem(fp, b, c, i - 1)
    }
}

/// The whole histogram geometry of a series.
pub open spec fn histo_markup(pts: Seq<Point>, b: Bounds, c: int) -> Seq<char> {
    histo_upto(finite_only(pts), b, c, finite_only(pts).len() as int)
}

/// Emit the histogram bars of the (already filtered) finite points.
pub fn emit_histo(w: &mut tagger::ElemWriter<String>, fv: &Vec<Point>, b: &Bounds, c: usize)
    requires
        b.wf(),
        pts_in_box(fv@, *b),
        forall|i: int| 0 <= i < fv@.len() ==> fv@[i].is_finite(),
    ensures
        written(*final(w)) == written(*old(w)) + histo_upto(fv@, *b, c as int, fv@.len() as int),
{
    let ghost base = written(*w);
    let mut i: usize = 0;
    while i < fv.len()
        invariant
            i <= fv.len(),
            b.wf(),
            pts_in_box(fv@, *b),
            forall|k: int| 0 <= k < fv@.len() ==> fv@[k].is_finite(),
            written(*w) == base + histo_upto(fv@, *b, c as int, i as int),
        decreases fv.len() - i,
    {
        let p = fv[i];
        let x = to_sx(coord_val(p.x) as i128, b);
        let y = to_sy(coord_val(p.y) as i128, b);
        let wd: i64 = if i + 1 < fv.len() {
            let xn = to_sx(coord_val(fv[i + 1].x) as i128, b);
            if xn - x > 0 {
                xn - x
            } else {
                0
            }
        } else {
            DEFAULT_BAR_W
        };
        let attrs = rect_attrs_str(c, x, y, wd, PLOT_Y1 - y);
        proof {
            lemma_tags_safe();
        }
        put_single(w, "rect", attrs.as_str());
        proof {
            assert(written(*w) =~= base + histo_upto(fv@, *b, c as int, i + 1 as int));
        }
        i += 1;
    }
}

// ---------------------------------------------------------------- line paths
/// Whether the pen is down before point `j`: exactly when the previous
/// point exists and is finite (any non-finite point lifts the pen).
pub open spec fn pen_at(s: Seq<Point>, j: int) -> bool {
    j > 0 && s[j - 1].is_finite()
}

/// The path command contributed by point `j` of a line series: nothing
/// for a non-finite point; otherwise a line-to when the pen is down and
/// a fresh move-to when it is not.
pub open spec fn line_cmd(s: Seq<Point>, b: Bounds, j: int) -> Seq<char> {
    if !s[j].is_finite() {
        Seq::<char>::empty()
    } else {
        (if pen_at(s, j) {
            " L "@
        } else {
            " M "@
        }) + dec_int(sx(s[j].x.value(), b.min_x as int, b.max_x as int)) + " "@ + dec_int(
            sy(s[j].y.value(), b.min_y as int, b.max_y as int),
        )
    }
}

pub open spec fn line_d_upto(s: Seq<Point>, b: Bounds, i: int) -> Seq<char>
    decreases i,
{
    if i <= 0 {
        Seq::<char>::empty()
    } else {
        line_d_upto(s, b, i - 1) + line_cmd(s, b, i - 1)
    }
}

/// The whole path data of a line series.
pub open spec fn line_d(s: Seq<Point>, b: Bounds) -> Seq<char> {
    line_d_upto(s, b, s.len() as int)
}

/// Build the path data of a line series.
pub fn build_line_d(pts: &Vec<Point>, b: &Bounds) -> (r: String)
    requires
        b.wf(),
        pts_in_box(pts@, *b),
    ensures
        r@ == line_d(pts@, *b),
{
    let mut d = String::new();
    let mut pen: bool = false;
    let mut j: usize = 0;
    while j < pts.len()
        invariant
            j <= pts.len(),
            b.wf(),
            pts_in_box(pts@, *b),
            pen == pen_at(pts@, j as int),
            d@ == line_d_upto(pts@, *b, j as int),
        decreases pts.len() - j,
    {
        let p = pts[j];
        if p.finite() {
            d.append(if pen {
                " L "
            } else {
                " M "
            });
            let xs = fmt_int(to_sx(coord_val(p.x) as i128, b) as i128);
            d.append(xs.as_str());
            d.append(" ");
            let ys = fmt_int(to_sy(coord_val(p.y) as i128, b) as i128);
            d.append(ys.as_str());
            pen = true;
        } else {
            pen = false;
        }
        proof {
            assert(d@ =~= line_d_upto(pts@, *b, j + 1 as int));
        }
        j += 1;
    }
    d
}

// ----------------------------------------------------------- filled line paths
/// The closing of one filled segment: down to the baseline under the
/// segment's last point, then close.
pub open spec fn close_cmd(s: Seq<Point>, b: Bounds, j: int) -> Seq<char> {
    " L "@ + dec_int(sx(s[j].x.value(), b.min_x as int, b.max_x as int)) + " "@ + dec_int(
        PLOT_Y1 as int,
    ) + " Z"@
}

/// The path command contributed by point `j` of a filled line series: a
/// finite point extends the segment (opening it from the baseline when
/// the pen is up); a non-finite point closes any open segment.
pub open spec fn fill_cmd(s: Seq<Point>, b: Bounds, j: int) -> Seq<char> {
    if s[j].is_finite() {
        let xd = dec_int(sx(s[j].x.value(), b.min_x as int, b.max_x as int));
        let yd = dec_int(sy(s[j].y.value(), b.min_y as int, b.max_y as int));
        if pen_at(s, j) {
            " L "@ + xd + " "@ + yd
        } else {
            " M "@ + xd + " "@ + dec_int(PLOT_Y1 as int) + " L "@ + xd + " "@ + yd
        }
    } else {
        if pen_at(s, j) {
            close_cmd(s, b, j - 1)
        } else {
            Seq::<char>::empty()
        }
    }
}

pub open spec fn fill_d_upto(s: Seq<Point>, b: Bounds, i: int) -> Seq<char>
    decreases i,
{
    if i <= 0 {
        Seq::<char>::empty()
    } else {
        fill_d_upto(s, b, i - 1) + fill_cmd(s, b, i - 1)
    }
}

/// The whole path data of a filled line series: every segment closed
/// down to the baseline, including the final one.
pub open spec fn fill_d(s: Seq<Point>, b: Bounds) -> Seq<char> {
    fill_d_upto(s, b, s.len() as int) + if pen_at(s, s.len() as int) {
        close_cmd(s, b, s.len() - 1)
    } else {
        Seq::<char>::empty()
    }
}

/// Build the path data of a filled line series.
pub fn build_fill_d(pts: &Vec<Point>, b: &Bounds) -> (r: String)
    requires
        b.wf(),
        pts_in_box(pts@, *b),
    ensures
        r@ == fill_d(pts@, *b),
{
    let mut d = String::new();
    let mut pen: bool = false;
    let mut j: usize = 0;
    while j < pts.len()
        invariant
            j <= pts.len(),
            b.wf(),
            pts_in_box(pts@, *b),
            pen == pen_at(pts@, j as int),
            d@ == fill_d_upto(pts@, *b, j as int),
        decreases pts.len() - j,
    {
        let p = pts[j];
        if p.finite() {
            let xs = fmt_int(to_sx(coord_val(p.x) as i128, b) as i128);
            let ys = fmt_int(to_sy(coord_val(p.y) as i128, b) as i128);
            if pen {
                d.append(" L ");
                d.append(xs.as_str());
                d.append(" ");
                d.append(ys.as_str());
            } else {
                d.append(" M ");
                d.append(xs.as_str());
                d.append(" ");
                let base_s = fmt_int(PLOT_Y1 as i128);
                d.append(base_s.as_str());
                d.append(" L ");
                d.append(xs.as_str());
                d.append(" ");
                d.append(ys.as_str());
            }
            pen = true;
        } else {
            if pen {
                let xs = fmt_int(to_sx(coord_val(pts[j - 1].x) as i128, b) as i128);
                d.append(" L ");
                d.append(xs.as_str());
                d.append(" ");
                let base_s = fmt_int(PLOT_Y1 as i128);
                d.append(base_s.as_str());
                d.append(" Z");
            }
            pen = false;
        }
        proof {
            assert(d@ =~= fill_d_upto(pts@, *b, j + 1 as int));
        }
        j += 1;
    }
    if pen {
        let xs = fmt_int(to_sx(coord_val(pts[pts.len() - 1].x) as i128, b) as i128);
        d.append(" L ");
        d.append(xs.as_str());
        d.append(" ");
        let base_s = fmt_int(PLOT_Y1 as i128);
        d.append(base_s.as_str());
        d.append(" Z");
    }
    proof {
        assert(d@ =~= fill_d(pts@, *b));
    }
    d
}


/// A non-finite point contributes no geometry. For scatter and histogram
/// series the markup is literally unchanged wherever such a point sits,
/// because both are functions of the finite subsequence alone.
pub proof fn lemma_nonfinite_no_marker_geometry(
    s1: Seq<Point>,
    p: Point,
    s2: Seq<Point>,
    b: Bounds,
    c: int,
)
    requires
        !p.is_finite(),
    ensures
        scatter_markup(s1 + seq![p] + s2, b, c) == scatter_markup(s1 + s2, b, c),
        histo_markup(s1 + seq![p] + s2, b, c) == histo_markup(s1 + s2, b, c),
{
    crate::point::lemma_finite_only_skips_nonfinite(s1, p, s2);
}

/// The path commands of a line series never change when a non-finite
/// point is appended: it draws nothing (inside the sequence it only
/// lifts the pen, which is what the path-break behavior asks for).
proof fn lemma_line_d_upto_trailing(s: Seq<Point>, p: Point, b: Bounds, i: int)
    requires
        0 <= i <= s.len(),
    ensures
        line_d_upto(s + seq![p], b, i) == line_d_upto(s, b, i),
    decreases i,
{
    if i > 0 {
        lemma_line_d_upto_trailing(s, p, b, i - 1);
        assert((s + seq![p])[i - 1] == s[i - 1]);
        if i - 1 > 0 {
            assert((s + seq![p])[i - 2] == s[i - 2]);
        }
        assert(line_cmd(s + seq![p], b, i - 1) == line_cmd(s, b, i - 1));
    }
}

proof fn lemma_fill_d_upto_trailing(s: Seq<Point>, p: Point, b: Bounds, i: int)
    requires
        0 <= i <= s.len(),
    ensures
        fill_d_upto(s + seq![p], b, i) == fill_d_upto(s, b, i),
    decreases i,
{
    if i > 0 {
        lemma_fill_d_upto_trailing(s, p, b, i - 1);
        assert((s + seq![p])[i - 1] == s[i - 1]);
        if i - 1 > 0 {
            assert((s + seq![p])[i - 2] == s[i - 2]);
        }
        assert(fill_cmd(s + seq![p], b, i - 1) == fill_cmd(s, b, i - 1));
    }
}

/// A trailing non-finite point leaves the whole path data of a line or
/// filled-line series unchanged: it contributes no coordinates.
pub proof fn lemma_nonfinite_no_path_geometry(s: Seq<Point>, p: Point, b: Bounds)
    requires
        !p.is_finite(),
    ensures
        line_d(s + seq![p], b) == line_d(s, b),
        fill_d(s + seq![p], b) == fill_d(s, b),
{
    let sp = s + seq![p];
    let n = s.len() as int;
    lemma_line_d_upto_trailing(s, p, b, n);
    assert(sp[n] == p);
    assert(line_cmd(sp, b, n) =~= Seq::<char>::empty());
    assert(line_d(sp, b) == line_d_upto(sp, b, n) + line_cmd(sp, b, n));
    assert(line_d_upto(s, b, n) + Seq::<char>::empty() =~= line_d_upto(s, b, n));
    lemma_fill_d_upto_trailing(s, p, b, n);
    if n > 0 {
        assert(sp[n - 1] == s[n - 1]);
    }
    assert(pen_at(sp, n) == pen_at(s, n));
    assert(pen_at(sp, n + 1) == false);
    if pen_at(s, n) {
        assert(close_cmd(sp, b, n - 1) == close_cmd(s, b, n - 1));
        assert(fill_cmd(sp, b, n) == close_cmd(s, b, n - 1));
        assert(fill_d(sp, b) == fill_d_upto(sp, b, n + 1) + Seq::<char>::empty());
        assert(fill_d_upto(sp, b, n + 1) == fill_d_upto(sp, b, n) + fill_cmd(sp, b, n));
        assert(fill_d(sp, b) =~= fill_d(s, b));
    } else {
        assert(fill_cmd(sp, b, n) =~= Seq::<char>::empty());
        assert(fill_d(sp, b) =~= fill_d(s, b));
    }
}

} // verus!
