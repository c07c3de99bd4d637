use vstd::prelude::*;
use crate::bounds::{compute_bounds, padded_box, Bounds};
use crate::dual::DualSeq;
use crate::geom::{
    build_fill_d, build_line_d, emit_histo, emit_scatter, fill_d, fill_path_attrs,
    fill_path_attrs_str, filter_finite, histo_markup, lemma_tags_safe, line_d, pts_in_box,
    scatter_markup, stroke_path_attrs, stroke_path_attrs_str,
};
use crate::numfmt::{dec_int, fmt_int, fmt_label, label_of};
use crate::point::Point;
use crate::sink::{
    elem_markup, fresh_writer, put_elem, put_raw, put_single, raw_markup, single_markup,
    take_output, written,
};
use crate::style::{
    default_style, default_svg_attr_text, default_svg_attrs, style_text, variables_style,
    NUM_COLORS,
};
use crate::ticks::{build_ticks, cdiv, choose_step, spec_step, tick_count};
use crate::transform::{sx, sy, to_sx, to_sy};

verus! {

/// The kind of geometry one series is drawn with.
#[derive(Clone, Copy, PartialEq, Eq, Structural, Debug)]
pub enum PlotType {
    Scatter,
    Line,
    Histo,
    LineFill,
}

/// The mathematical content of one registered series.
pub struct PlotV {
    pub name: Seq<char>,
    pub kind: PlotType,
    pub pts: Seq<Point>,
}

/// The mathematical content of a plotter: everything the rendered text
/// is a function of.
pub struct PlotterV {
    pub title: Seq<char>,
    pub xname: Seq<char>,
    pub yname: Seq<char>,
    pub plots: Seq<PlotV>,
    pub aux: Seq<Seq<char>>,
    pub css_variables: bool,
    pub nostyle: bool,
    pub nosvgtag: bool,
}

/// One registered series: its kind, its label and its dual-access data.
pub struct PlotEntry {
    plot_type: PlotType,
    name: String,
    data: DualSeq,
}

impl View for PlotEntry {
    type V = PlotV;

    closed spec fn view(&self) -> PlotV {
        PlotV { name: self.name@, kind: self.plot_type, pts: self.data.points() }
    }
}

impl PlotEntry {
    pub closed spec fn fresh(self) -> bool {
        self.data.state() is Fresh && self.data.inv()
    }
}

pub open spec fn evs(s: Seq<PlotEntry>) -> Seq<PlotV> {
    s.map_values(|e: PlotEntry| e@)
}

/// Keeps track of plots. The caller supplies dual-access sequences that
/// are traversed when render is called.
pub struct Plotter {
    title: String,
    xname: String,
    yname: String,
    plots: Vec<PlotEntry>,
    data: Vec<String>,
    css_variables: bool,
    nostyle: bool,
    nosvgtag: bool,
}

impl View for Plotter {
    type V = PlotterV;

    closed spec fn view(&self) -> PlotterV {
        PlotterV {
            title: self.title@,
            xname: self.xname@,
            yname: self.yname@,
            plots: evs(self.plots@),
            aux: self.data@.map_values(|s: String| s@),
            css_variables: self.css_variables,
            nostyle: self.nostyle,
            nosvgtag: self.nosvgtag,
        }
    }
}

impl Plotter {
    /// All series still await their first traversal.
    pub closed spec fn inv(self) -> bool {
        forall|i: int| 0 <= i < self.plots@.len() ==> (#[trigger] self.plots@[i]).fresh()
    }

    /// Create a plotter with a title and the two axis labels.
    pub fn new(title: String, xname: String, yname: String) -> (r: Plotter)
        ensures
            r@ == (PlotterV {
                title: title@,
                xname: xname@,
                yname: yname@,
                plots: Seq::<PlotV>::empty(),
                aux: Seq::<Seq<char>>::empty(),
                css_variables: false,
                nostyle: false,
                nosvgtag: false,
            }),
            r.inv(),
    {
        let r = Plotter {
            title,
            xname,
            yname,
            plots: Vec::new(),
            data: Vec::new(),
            css_variables: false,
            nostyle: false,
            nosvgtag: false,
        };
        proof {
            assert(r@.plots =~= Seq::<PlotV>::empty());
            assert(r@.aux =~= Seq::<Seq<char>>::empty());
        }
        r
    }

    fn push_plot(&mut self, kind: PlotType, name: String, plots: DualSeq)
        requires
            plots.state() is Fresh,
            plots.inv(),
            old(self).inv(),
        ensures
            final(self).inv(),
            final(self)@ == (PlotterV {
                plots: old(self)@.plots.push(
                    PlotV { name: name@, kind: kind, pts: plots.points() },
                ),
                ..old(self)@
            }),
    {
        let ghost before = self@;
        let entry = PlotEntry { plot_type: kind, name, data: plots };
        self.plots.push(entry);
        proof {
            assert(evs(self.plots@) =~= before.plots.push(entry@));
        }
    }

    /// Register a line series.
    pub fn line(&mut self, name: String, plots: DualSeq)
        requires
            plots.state() is Fresh,
            plots.inv(),
            old(self).inv(),
        ensures
            final(self).inv(),
            final(self)@ == (PlotterV {
                plots: old(self)@.plots.push(
                    PlotV { name: name@, kind: PlotType::Line, pts: plots.points() },
                ),
                ..old(self)@
            }),
    {
        self.push_plot(PlotType::Line, name, plots);
    }

    /// Register a line series whose area down to the baseline is filled.
    pub fn line_fill(&mut self, name: String, plots: DualSeq)
        requires
            plots.state() is Fresh,
            plots.inv(),
            old(self).inv(),
        ensures
            final(self).inv(),
            final(self)@ == (PlotterV {
                plots: old(self)@.plots.push(
                    PlotV { name: name@, kind: PlotType::LineFill, pts: plots.points() },
                ),
                ..old(self)@
            }),
    {
        self.push_plot(PlotType::LineFill, name, plots);
    }

    /// Register a scatter series.
    pub fn scatter(&mut self, name: String, plots: DualSeq)
        requires
            plots.state() is Fresh,
            plots.inv(),
            old(self).inv(),
        ensures
            final(self).inv(),
            final(self)@ == (PlotterV {
                plots: old(self)@.plots.push(
                    PlotV { name: name@, kind: PlotType::Scatter, pts: plots.points() },
                ),
                ..old(self)@
            }),
    {
        self.push_plot(PlotType::Scatter, name, plots);
    }

    /// Register a histogram series: each point is the left edge of a bar.
    pub fn histogram(&mut self, name: String, plots: DualSeq)
        requires
            plots.state() is Fresh,
            plots.inv(),
            old(self).inv(),
        ensures
            final(self).inv(),
            final(self)@ == (PlotterV {
                plots: old(self)@.plots.push(
                    PlotV { name: name@, kind: PlotType::Histo, pts: plots.points() },
                ),
                ..old(self)@
            }),
    {
        self.push_plot(PlotType::Histo, name, plots);
    }

    /// Inject a text block verbatim, after the structural tags and before
    /// the chart's own content.
    pub fn with_text(&mut self, inner: String)
        requires
            old(self).inv(),
        ensures
            final(self).inv(),
            final(self)@ == (PlotterV { aux: old(self)@.aux.push(inner@), ..old(self)@ }),
    {
        let ghost before = self@;
        self.data.push(inner);
        proof {
            assert(self@.aux =~= before.aux.push(self.data@.last()@));
        }
    }

    /// Use the CSS-variable-parameterized stylesheet instead of the
    /// fixed default colors.
    pub fn with_css_variables(&mut self)
        requires
            old(self).inv(),
        ensures
            final(self).inv(),
            final(self)@ == (PlotterV { css_variables: true, ..old(self)@ }),
    {
        self.css_variables = true;
    }

    /// Suppress the default stylesheet.
    pub fn with_no_style(&mut self)
        requires
            old(self).inv(),
        ensures
            final(self).inv(),
            final(self)@ == (PlotterV { nostyle: true, ..old(self)@ }),
    {
        self.nostyle = true;
    }

    /// Suppress the outer svg tag, for callers that wrap the chart in a
    /// tag of their own.
    pub fn with_no_svg_tag(&mut self)
        requires
            old(self).inv(),
        ensures
            final(self).inv(),
            final(self)@ == (PlotterV { nosvgtag: true, ..old(self)@ }),
    {
        self.nosvgtag = true;
    }
}

/// Convenience function for Plotter::new.
pub fn plot(title: String, xname: String, yname: String) -> (r: Plotter)
    ensures
        r@ == (PlotterV {
            title: title@,
            xname: xname@,
            yname: yname@,
            plots: Seq::<PlotV>::empty(),
            aux: Seq::<Seq<char>>::empty(),
            css_variables: false,
            nostyle: false,
            nosvgtag: false,
        }),
        r.inv(),
{
    Plotter::new(title, xname, yname)
}

// --------------------------------------------------------------- the document
/// The color index of the i-th registered series: `i` modulo the
/// palette size, so colors cycle once the palette is exhausted.
pub open spec fn color_of(i: int) -> int {
    i % (NUM_COLORS as int)
}

/// The padded bounds the renderer derives from the registered series.
pub open spec fn spec_bounds_of(ps: Seq<PlotV>) -> Bounds {
    let pb = padded_box(ps.map_values(|p: PlotV| p.pts));
    Bounds { min_x: pb.0 as i128, max_x: pb.1 as i128, min_y: pb.2 as i128, max_y: pb.3 as i128 }
}

pub open spec fn svg_open_text() -> Seq<char> {
    "<svg "@ + default_svg_attr_text() + ">"@
}

pub open spec fn g_open_text(name: Seq<char>) -> Seq<char> {
    "<g class=\"poloto_series\" data-name=\""@ + name + "\">"@
}

pub open spec fn header_markup(t: Seq<char>, x: Seq<char>, y: Seq<char>) -> Seq<char> {
    elem_markup(
        "text"@,
        "class=\"poloto_text\" text-anchor=\"middle\" font-size=\"24\" x=\"400\" y=\"37\""@,
        t,
    ) + elem_markup(
        "text"@,
        "class=\"poloto_text\" text-anchor=\"middle\" font-size=\"16\" x=\"430\" y=\"487\""@,
        x,
    ) + elem_markup(
        "text"@,
        "class=\"poloto_text\" text-anchor=\"middle\" font-size=\"16\" x=\"25\" y=\"250\""@,
        y,
    ) + single_markup(
        "line"@,
        "class=\"poloto_axis_lines\" x1=\"90\" y1=\"430\" x2=\"770\" y2=\"430\""@,
    ) + single_markup(
        "line"@,
        "class=\"poloto_axis_lines\" x1=\"90\" y1=\"60\" x2=\"90\" y2=\"430\""@,
    )
}

pub open spec fn aux_upto(aux: Seq<Seq<char>>, i: int) -> Seq<char>
    decreases i,
{
    if i <= 0 {
        Seq::<char>::empty()
    } else {
        aux_upto(aux, i - 1) + raw_markup(aux[i - 1])
    }
}

// ticks
pub open spec fn xstep(b: Bounds) -> int {
    spec_step(b.min_x as int, b.max_x as int)
}

pub open spec fn ystep(b: Bounds) -> int {
    spec_step(b.min_y as int, b.max_y as int)
}

pub open spec fn xtick_val(b: Bounds, j: int) -> int {
    (cdiv(b.min_x as int, xstep(b)) + j) * xstep(b)
}

pub open spec fn ytick_val(b: Bounds, j: int) -> int {
    (cdiv(b.min_y as int, ystep(b)) + j) * ystep(b)
}

pub open spec fn xgrid_attrs(px: int) -> Seq<char> {
    "class=\"poloto_axis_lines\" stroke-dasharray=\"2\" x1=\""@ + dec_int(px) + "\" y1=\"60\" x2=\""@
        + dec_int(px) + "\" y2=\"430\""@
}

fn xgrid_attrs_str(px: i64) -> (r: String)
    ensures
        r@ == xgrid_attrs(px as int),
{
    let mut s = String::from_str("class=\"poloto_axis_lines\" stroke-dasharray=\"2\" x1=\"");
    let xs = fmt_int(px as i128);
    s.append(xs.as_str());
    s.append("\" y1=\"60\" x2=\"");
    s.append(xs.as_str());
    s.append("\" y2=\"430\"");
    s
}

pub open spec fn ygrid_attrs(py: int) -> Seq<char> {
    "class=\"poloto_axis_lines\" stroke-dasharray=\"2\" x1=\"90\" y1=\""@ + dec_int(py)
        + "\" x2=\"770\" y2=\""@ + dec_int(py) + "\""@
}

fn ygrid_attrs_str(py: i64) -> (r: String)
    ensures
        r@ == ygrid_attrs(py as int),
{
    let mut s = String::from_str("class=\"poloto_axis_lines\" stroke-dasharray=\"2\" x1=\"90\" y1=\"");
    let ys = fmt_int(py as i128);
    s.append(ys.as_str());
    s.append("\" x2=\"770\" y2=\"");
    s.append(ys.as_str());
    s.append("\"");
    s
}

pub open spec fn xtick_text_attrs(px: int) -> Seq<char> {
    "class=\"poloto_text\" text-anchor=\"middle\" x=\""@ + dec_int(px) + "\" y=\"455\""@
}

fn xtick_text_attrs_str(px: i64) -> (r: String)
    ensures
        r@ == xtick_text_attrs(px as int),
{
    let mut s = String::from_str("class=\"poloto_text\" text-anchor=\"middle\" x=\"");
    let xs = fmt_int(px as i128);
    s.append(xs.as_str());
    s.append("\" y=\"455\"");
    s
}

pub open spec fn ytick_text_attrs(py: int) -> Seq<char> {
    "class=\"poloto_text\" text-anchor=\"end\" x=\"80\" y=\""@ + dec_int(py) + "\""@
}

fn ytick_text_attrs_str(py: i64) -> (r: String)
    ensures
        r@ == ytick_text_attrs(py as int),
{
    let mut s = String::from_str("class=\"poloto_text\" text-anchor=\"end\" x=\"80\" y=\"");
    let ys = fmt_int(py as i128);
    s.append(ys.as_str());
    s.append("\"");
    s
}

/// One x tick: a dashed vertical grid line and the tick's value text.
pub open spec fn xtick_markup(t: int, b: Bounds) -> Seq<char> {
    let px = sx(t, b.min_x as int, b.max_x as int);
    single_markup("line"@, xgrid_attrs(px)) + elem_markup("text"@, xtick_text_attrs(px), label_of(t))
}

pub open spec fn xticks_upto(b: Bounds, i: int) -> Seq<char>
    decreases i,
{
    if i <= 0 {
        Seq::<char>::empty()
    } else {
        xticks_upto(b, i - 1) + xtick_markup(xtick_val(b, i - 1), b)
    }
}

pub open spec fn xticks_markup(b: Bounds) -> Seq<char> {
    xticks_upto(b, tick_count(b.min_x as int, b.max_x as int, xstep(b)))
}

/// One y tick: a dashed horizontal grid line and the tick's value text.
pub open spec fn ytick_markup(t: int, b: Bounds) -> Seq<char> {
    let py = sy(t, b.min_y as int, b.max_y as int);
    single_markup("line"@, ygrid_attrs(py)) + elem_markup("text"@, ytick_text_attrs(py), label_of(t))
}

pub open spec fn yticks_upto(b: Bounds, i: int) -> Seq<char>
    decreases i,
{
    if i <= 0 {
        Seq::<char>::empty()
    } else {
        yticks_upto(b, i - 1) + ytick_markup(ytick_val(b, i - 1), b)
    }
}

pub open spec fn yticks_markup(b: Bounds) -> Seq<char> {
    yticks_upto(b, tick_count(b.min_y as int, b.max_y as int, ystep(b)))
}

/// The geometry of one series, by kind.
pub open spec fn geom_markup(kind: PlotType, pts: Seq<Point>, b: Bounds, c: int) -> Seq<char> {
    match kind {
        PlotType::Scatter => scatter_markup(pts, b, c),
        PlotType::Line => single_markup("path"@, stroke_path_attrs(c, line_d(pts, b))),
        PlotType::Histo => histo_markup(pts, b, c),
        PlotType::LineFill => single_markup("path"@, fill_path_attrs(c, fill_d(pts, b))),
    }
}

/// One series' group: an opening group tag carrying the series' name,
/// the geometry in the series' cycled color, and the closing tag.
pub open spec fn plot_markup(p: PlotV, b: Bounds, i: int) -> Seq<char> {
    raw_markup(g_open_text(p.name)) + geom_markup(p.kind, p.pts, b, color_of(i)) + raw_markup(
        "</g>"@,
    )
}

pub open spec fn plots_upto(ps: Seq<PlotV>, b: Bounds, i: int) -> Seq<char>
    decreases i,
{
    if i <= 0 {
        Seq::<char>::empty()
    } else {
        plots_upto(ps, b, i - 1) + plot_markup(ps[i - 1], b, i - 1)
    }
}

/// The entire rendered document, as a function of the plotter's content.
pub open spec fn render_spec(v: PlotterV) -> Seq<char> {
    let b = spec_bounds_of(v.plots);
    (if v.nosvgtag {
        Seq::<char>::empty()
    } else {
        raw_markup(svg_open_text())
    }) + (if v.nostyle {
        Seq::<char>::empty()
    } else {
        elem_markup("style"@, ""@, style_text(v.css_variables))
    }) + aux_upto(v.aux, v.aux.len() as int) + header_markup(v.title, v.xname, v.yname)
        + xticks_markup(b) + yticks_markup(b) + plots_upto(v.plots, b, v.plots.len() as int) + (
    if v.nosvgtag {
        Seq::<char>::empty()
    } else {
        raw_markup("</svg>"@)
    })
}


/// Emit the x-axis grid lines and tick labels.
fn emit_xticks(w: &mut tagger::ElemWriter<String>, b: &Bounds)
    requires
        b.wf(),
    ensures
        written(*final(w)) == written(*old(w)) + xticks_markup(*b),
{
    let ghost base = written(*w);
    let s = choose_step(b.min_x, b.max_x);
    let ticks = build_ticks(b.min_x, b.max_x, s);
    proof {
        assert(ticks@.len() == tick_count(b.min_x as int, b.max_x as int, xstep(*b)));
    }
    let mut j: usize = 0;
    while j < ticks.len()
        invariant
            j <= ticks.len(),
            b.wf(),
            s as int == xstep(*b),
            s >= 1,
            ticks@.len() == tick_count(b.min_x as int, b.max_x as int, xstep(*b)),
            forall|jj: int|
                0 <= jj < ticks@.len() ==> ticks@[jj] == (cdiv(b.min_x as int, s as int) + jj) * (
                s as int),
            forall|jj: int| 0 <= jj < ticks@.len() ==> b.min_x <= #[trigger] ticks@[jj] <= b.max_x,
            written(*w) == base + xticks_upto(*b, j as int),
        decreases ticks.len() - j,
    {
        let tv = ticks[j];
        proof {
            assert(tv as int == xtick_val(*b, j as int));
        }
        let px = to_sx(tv, b);
        let ga = xgrid_attrs_str(px);
        proof {
            lemma_tags_safe();
        }
        put_single(w, "line", ga.as_str());
        let ta = xtick_text_attrs_str(px);
        let lab = fmt_label(tv);
        put_elem(w, "text", ta.as_str(), lab.as_str());
        proof {
            assert(written(*w) =~= base + xticks_upto(*b, j + 1 as int));
        }
        j += 1;
    }
}

/// Emit the y-axis grid lines and tick labels.
fn emit_yticks(w: &mut tagger::ElemWriter<String>, b: &Bounds)
    requires
        b.wf(),
    ensures
        written(*final(w)) == written(*old(w)) + yticks_markup(*b),
{
    let ghost base = written(*w);
    let s = choose_step(b.min_y, b.max_y);
    let ticks = build_ticks(b.min_y, b.max_y, s);
    proof {
        assert(ticks@.len() == tick_count(b.min_y as int, b.max_y as int, ystep(*b)));
    }
    let mut j: usize = 0;
    while j < ticks.len()
        invariant
            j <= ticks.len(),
            b.wf(),
            s as int == ystep(*b),
            s >= 1,
            ticks@.len() == tick_count(b.min_y as int, b.max_y as int, ystep(*b)),
            forall|jj: int|
                0 <= jj < ticks@.len() ==> ticks@[jj] == (cdiv(b.min_y as int, s as int) + jj) * (
                s as int),
            forall|jj: int| 0 <= jj < ticks@.len() ==> b.min_y <= #[trigger] ticks@[jj] <= b.max_y,
            written(*w) == base + yticks_upto(*b, j as int),
        decreases ticks.len() - j,
    {
        let tv = ticks[j];
        proof {
            assert(tv as int == ytick_val(*b, j as int));
        }
        let py = to_sy(tv, b);
        let ga = ygrid_attrs_str(py);
        proof {
            lemma_tags_safe();
        }
        put_single(w, "line", ga.as_str());
        let ta = ytick_text_attrs_str(py);
        let lab = fmt_label(tv);
        put_elem(w, "text", ta.as_str(), lab.as_str());
        proof {
            assert(written(*w) =~= base + yticks_upto(*b, j + 1 as int));
        }
        j += 1;
    }
}

impl Plotter {
    /// Render the chart. Up to this point nothing has been traversed;
    /// this call consumes every registered series, reading each exactly
    /// twice: once for the common bounds, once for its geometry. The
    /// result is exactly the document that `render_spec` describes.
    pub fn render_to_string(self) -> (r: String)
        requires
            self.inv(),
        ensures
            r@ == render_spec(self@),
    {
        let ghost v = self@;
        let Plotter {
            title,
            xname,
            yname,
            plots: mut entries,
            data: aux,
            css_variables,
            nostyle,
            nosvgtag,
        } = self;
        let ghost allv = v.plots;
        let mut w = fresh_writer();
        // the outer svg tag
        if !nosvgtag {
            let mut o = String::from_str("<svg ");
            o.append(default_svg_attrs());
            o.append(">");
            put_raw(&mut w, o.as_str());
        }
        let ghost s1 = if v.nosvgtag {
            Seq::<char>::empty()
        } else {
            raw_markup(svg_open_text())
        };
        proof {
            assert(written(w) =~= s1);
        }
        // the stylesheet
        if !nostyle {
            let css = if css_variables {
                variables_style()
            } else {
                default_style()
            };
            proof {
                lemma_tags_safe();
            }
            put_elem(&mut w, "style", "", css);
        }
        let ghost s2 = s1 + (if v.nostyle {
            Seq::<char>::empty()
        } else {
            elem_markup("style"@, ""@, style_text(v.css_variables))
        });
        proof {
            assert(written(w) =~= s2);
        }
        // caller-injected text blocks, verbatim and in order
        let mut ai: usize = 0;
        while ai < aux.len()
            invariant
                ai <= aux.len(),
                v.aux == aux@.map_values(|t: String| t@),
                written(w) == s2 + aux_upto(v.aux, ai as int),
            decreases aux.len() - ai,
        {
            put_raw(&mut w, aux[ai].as_str());
            proof {
                assert(aux@[ai as int]@ == v.aux[ai as int]);
                assert(written(w) =~= s2 + aux_upto(v.aux, ai + 1 as int));
            }
            ai += 1;
        }
        let ghost s3 = s2 + aux_upto(v.aux, v.aux.len() as int);
        proof {
            assert(aux@.len() == v.aux.len());
            assert(written(w) =~= s3);
        }
        // title, axis names, axis lines
        proof {
            lemma_tags_safe();
        }
        put_elem(
            &mut w,
            "text",
            "class=\"poloto_text\" text-anchor=\"middle\" font-size=\"24\" x=\"400\" y=\"37\"",
            title.as_str(),
        );
        put_elem(
            &mut w,
            "text",
            "class=\"poloto_text\" text-anchor=\"middle\" font-size=\"16\" x=\"430\" y=\"487\"",
            xname.as_str(),
        );
        put_elem(
            &mut w,
            "text",
            "class=\"poloto_text\" text-anchor=\"middle\" font-size=\"16\" x=\"25\" y=\"250\"",
            yname.as_str(),
        );
        put_single(
            &mut w,
            "line",
            "class=\"poloto_axis_lines\" x1=\"90\" y1=\"430\" x2=\"770\" y2=\"430\"",
        );
        put_single(
            &mut w,
            "line",
            "class=\"poloto_axis_lines\" x1=\"90\" y1=\"60\" x2=\"90\" y2=\"430\"",
        );
        let ghost s4 = s3 + header_markup(v.title, v.xname, v.yname);
        proof {
            assert(written(w) =~= s4);
        }
        // first traversal of every series: the bounds pass
        let mut passed: Vec<PlotEntry> = Vec::new();
        let mut firsts: Vec<Vec<Point>> = Vec::new();
        proof {
            assert(evs(entries@) =~= allv);
            assert(evs(entries@) =~= allv.skip(0));
        }
        while entries.len() > 0
            invariant
                passed@.len() + entries@.len() == allv.len(),
                firsts@.len() == passed@.len(),
                evs(entries@) == allv.skip(passed@.len() as int),
                forall|i: int| 0 <= i < entries@.len() ==> (#[trigger] entries@[i]).fresh(),
                forall|i: int|
                    0 <= i < passed@.len() ==> (#[trigger] passed@[i]).data.state() is FirstDone
                        && passed@[i].data.inv(),
                forall|i: int| 0 <= i < passed@.len() ==> (#[trigger] passed@[i])@ == allv[i],
                forall|i: int| 0 <= i < firsts@.len() ==> (#[trigger] firsts@[i])@ == allv[i].pts,
            decreases entries@.len(),
        {
            let ghost k = passed@.len() as int;
            let ghost ents0 = entries@;
            let mut e = entries.remove(0);
            proof {
                assert(e == ents0[0]);
                assert(evs(ents0)[0] == allv.skip(k)[0]);
                assert(e@ == allv[k]);
                assert(e.fresh());
            }
            let pts = e.data.first_pass();
            firsts.push(pts);
            passed.push(e);
            proof {
                assert(e@ == allv[k]);
                assert forall|i: int| 0 <= i < entries@.len() implies evs(entries@)[i] == allv.skip(
                    k + 1,
                )[i] by {
                    assert(entries@[i] == ents0[i + 1]);
                    assert(evs(ents0)[i + 1] == allv.skip(k)[i + 1]);
                }
                assert(evs(entries@) =~= allv.skip(k + 1));
            }
        }
        let b = compute_bounds(&firsts);
        proof {
            assert(firsts@.map_values(|vv: Vec<Point>| vv@) =~= allv.map_values(|p: PlotV| p.pts));
            assert(b == spec_bounds_of(allv));
            assert forall|i: int| 0 <= i < allv.len() implies pts_in_box(
                (#[trigger] allv[i]).pts,
                b,
            ) by {
                let ss = firsts@.map_values(|vv: Vec<Point>| vv@);
                assert(firsts@[i]@ == allv[i].pts);
                assert forall|pi: int|
                    0 <= pi < allv[i].pts.len() && allv[i].pts[pi].is_finite() implies b.min_x
                    <= allv[i].pts[pi].x.value() <= b.max_x && b.min_y <= allv[i].pts[pi].y.value()
                    <= b.max_y by {
                    assert(firsts@[i]@[pi] == allv[i].pts[pi]);
                }
            }
        }
        // ticks and grid
        emit_xticks(&mut w, &b);
        let ghost s5 = s4 + xticks_markup(b);
        proof {
            assert(written(w) =~= s5);
        }
        emit_yticks(&mut w, &b);
        let ghost s6 = s5 + yticks_markup(b);
        proof {
            assert(written(w) =~= s6);
        }
        // second traversal of every series: the geometry pass
        let mut k: usize = 0;
        let n = passed.len();
        while k < n
            invariant
                n == allv.len(),
                passed@.len() == n - k,
                k <= n,
                forall|i: int|
                    0 <= i < passed@.len() ==> (#[trigger] passed@[i]).data.state() is FirstDone
                        && passed@[i].data.inv(),
                forall|i: int| 0 <= i < passed@.len() ==> (#[trigger] passed@[i])@ == allv[k + i],
                b.wf(),
                forall|i: int| 0 <= i < allv.len() ==> pts_in_box((#[trigger] allv[i]).pts, b),
                written(w) == s6 + plots_upto(allv, b, k as int),
            decreases n - k,
        {
            let ghost passed0 = passed@;
            let mut e = passed.remove(0);
            proof {
                assert(e == passed0[0]);
                assert(e@ == allv[k as int]);
            }
            let pts = e.data.second_pass();
            let mut g = String::from_str("<g class=\"poloto_series\" data-name=\"");
            g.append(e.name.as_str());
            g.append("\">");
            put_raw(&mut w, g.as_str());
            let c = k % NUM_COLORS;
            proof {
                assert(g@ == g_open_text(allv[k as int].name));
                assert(c as int == color_of(k as int));
                assert(pts@ == allv[k as int].pts);
                assert(pts_in_box(pts@, b));
            }
            match e.plot_type {
                PlotType::Scatter => {
                    let fv = filter_finite(&pts);
                    proof {
                        crate::geom::lemma_finite_only_in_box(pts@, b);
                    }
                    emit_scatter(&mut w, &fv, &b, c);
                },
                PlotType::Line => {
                    let d = build_line_d(&pts, &b);
                    let at = stroke_path_attrs_str(c, d.as_str());
                    proof {
                        lemma_tags_safe();
                    }
                    put_single(&mut w, "path", at.as_str());
                },
                PlotType::Histo => {
                    let fv = filter_finite(&pts);
                    proof {
                        crate::geom::lemma_finite_only_in_box(pts@, b);
                    }
                    emit_histo(&mut w, &fv, &b, c);
                },
                PlotType::LineFill => {
                    let d = build_fill_d(&pts, &b);
                    let at = fill_path_attrs_str(c, d.as_str());
                    proof {
                        lemma_tags_safe();
                    }
                    put_single(&mut w, "path", at.as_str());
                },
            }
            put_raw(&mut w, "</g>");
            proof {
                assert(e@.kind == allv[k as int].kind);
                assert(written(w) =~= s6 + plots_upto(allv, b, k + 1 as int));
                assert forall|i: int| 0 <= i < passed@.len() implies (#[trigger] passed@[i])@
                    == allv[k + 1 + i] by {
                    assert(passed@[i] == passed0[i + 1]);
                }
            }
            k += 1;
        }
        let ghost s7 = s6 + plots_upto(allv, b, allv.len() as int);
        proof {
            assert(written(w) =~= s7);
        }
        // close the svg tag
        if !nosvgtag {
            put_raw(&mut w, "</svg>");
        }
        proof {
            assert(written(w) =~= render_spec(v));
        }
        take_output(w)
    }
}


/// The palette law: the i-th registered series uses color index
/// `i mod NUM_COLORS`, the index always names one of the palette's
/// colors, and after `NUM_COLORS` series the colors repeat from the
/// start.
pub proof fn lemma_palette_cycles(i: int)
    requires
        i >= 0,
    ensures
        color_of(i) == i % (NUM_COLORS as int),
        0 <= color_of(i) < NUM_COLORS as int,
        color_of(i + NUM_COLORS as int) == color_of(i),
{
    vstd::arithmetic::div_mod::lemma_mod_bound(i, NUM_COLORS as int);
    vstd::arithmetic::div_mod::lemma_mod_multiples_vanish(1, i, NUM_COLORS as int);
}

/// The idempotence law: the rendered document is a function of the
/// plotter's content alone, so two plotters holding the same titles,
/// series, injected text and flags render to byte-identical text.
pub proof fn lemma_render_deterministic(a: PlotterV, b: PlotterV)
    requires
        a == b,
    ensures
        render_spec(a) == render_spec(b),
{
}

} // verus!
