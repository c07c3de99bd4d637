use poloto::dual::DualSeq;
use poloto::point::{Coord, Point};
use poloto::Plotter;

fn count(hay: &str, needle: &str) -> usize {
    hay.matches(needle).count()
}

fn s(t: &str) -> String {
    String::from(t)
}

#[test]
fn one_line_series_gives_one_connected_path() {
    // Data [[0,0],[1,1],[2,4]] in thousandths.
    let pts = vec![Point::new(0, 0), Point::new(1000, 1000), Point::new(2000, 4000)];
    let mut p = Plotter::new(s("demo"), s("x"), s("y"));
    p.line(s("series one"), DualSeq::rederive(pts));
    let out = p.render_to_string();
    // exactly one path element, one connected segment through three points
    assert_eq!(count(&out, "<path"), 1);
    assert_eq!(count(&out, " M "), 1);
    assert_eq!(count(&out, " L "), 2);
    // the x tick set covers 0 ..= 2 with step 1
    assert!(out.contains("> 0</text>"));
    assert!(out.contains("> 1</text>"));
    assert!(out.contains("> 2</text>"));
    // everything sits inside one svg document
    assert_eq!(count(&out, "<svg "), 1);
    assert_eq!(count(&out, "</svg>"), 1);
}

#[test]
fn nan_breaks_line_into_two_segments() {
    // Data [[0,0],[1,NaN],[2,2]]: the middle point lifts the pen.
    let pts = vec![
        Point::new(0, 0),
        Point { x: Coord::Finite(1000), y: Coord::NonFinite },
        Point::new(2000, 2000),
    ];
    let mut p = Plotter::new(s("demo"), s("x"), s("y"));
    p.line(s("broken"), DualSeq::capture(pts));
    let out = p.render_to_string();
    assert_eq!(count(&out, "<path"), 1);
    // two disjoint segments: two move-to commands, no line-to across the gap
    assert_eq!(count(&out, " M "), 2);
    assert_eq!(count(&out, " L "), 0);
}

#[test]
fn zero_series_renders_fallback_box() {
    let p = Plotter::new(s("empty"), s("x"), s("y"));
    let out = p.render_to_string();
    assert_eq!(count(&out, "<svg "), 1);
    assert_eq!(count(&out, "</svg>"), 1);
    assert_eq!(count(&out, "poloto_series"), 0);
    // ticks of the fallback unit box 0 ..= 1, padded: step one half
    assert!(out.contains("> 0</text>"));
    assert!(out.contains("> 0.500</text>"));
    assert!(out.contains("> 1</text>"));
}

#[test]
fn nonfinite_point_contributes_nothing() {
    let base = vec![Point::new(0, 0), Point::new(2000, 3000)];
    let with_nan = vec![
        Point::new(0, 0),
        Point { x: Coord::NonFinite, y: Coord::Finite(5) },
        Point::new(2000, 3000),
    ];
    let mut a = Plotter::new(s("t"), s("x"), s("y"));
    a.scatter(s("data"), DualSeq::rederive(base));
    let mut b = Plotter::new(s("t"), s("x"), s("y"));
    b.scatter(s("data"), DualSeq::rederive(with_nan));
    assert_eq!(a.render_to_string(), b.render_to_string());
}

#[test]
fn palette_cycles_after_eight_series() {
    let mut p = Plotter::new(s("many"), s("x"), s("y"));
    for i in 0..9 {
        let pts = vec![Point::new(1000 * i, 1000 * i)];
        p.scatter(s("series"), DualSeq::rederive(pts));
    }
    p.with_no_style();
    let out = p.render_to_string();
    // the first eight series each use their own color ...
    for c in 0..8 {
        assert!(count(&out, &format!("class=\"poloto{c}stroke")) >= 1);
    }
    // ... and the ninth reuses the first color
    assert_eq!(count(&out, "class=\"poloto0stroke"), 2);
    assert_eq!(count(&out, "class=\"poloto1stroke"), 1);
}

#[test]
fn rendering_twice_is_byte_identical() {
    let build = || {
        let mut p = Plotter::new(s("twice"), s("x"), s("y"));
        p.line(s("a"), DualSeq::rederive(vec![Point::new(0, 0), Point::new(500, 2500)]));
        p.histogram(s("b"), DualSeq::rederive(vec![Point::new(0, 1000), Point::new(1000, 2000)]));
        p
    };
    let one = build().render_to_string();
    let two = build().render_to_string();
    assert_eq!(one, two);
}

#[test]
fn histogram_emits_bars() {
    let pts = vec![Point::new(0, 1000), Point::new(1000, 2000), Point::new(2000, 500)];
    let mut p = Plotter::new(s("h"), s("x"), s("y"));
    p.histogram(s("bars"), DualSeq::materialized(pts));
    let out = p.render_to_string();
    assert_eq!(count(&out, "<rect"), 3);
    assert!(out.contains("class=\"poloto0fill"));
}

#[test]
fn line_fill_closes_to_baseline() {
    let pts = vec![Point::new(0, 1000), Point::new(1000, 2000)];
    let mut p = Plotter::new(s("f"), s("x"), s("y"));
    p.line_fill(s("area"), DualSeq::capture(pts));
    let out = p.render_to_string();
    assert_eq!(count(&out, "<path"), 1);
    assert_eq!(count(&out, " Z"), 1);
    assert!(out.contains("class=\"poloto0fill"));
}

#[test]
fn injected_text_appears_verbatim_before_series() {
    let mut p = Plotter::new(s("t"), s("x"), s("y"));
    p.with_text(s("<!-- custom block -->"));
    p.scatter(s("d"), DualSeq::rederive(vec![Point::new(0, 0)]));
    let out = p.render_to_string();
    let aux_at = out.find("<!-- custom block -->").unwrap();
    let series_at = out.find("poloto_series").unwrap();
    assert!(aux_at < series_at);
}

#[test]
fn css_variables_style_is_parameterized() {
    let mut p = Plotter::new(s("t"), s("x"), s("y"));
    p.with_css_variables();
    let out = p.render_to_string();
    assert!(out.contains("var(--poloto_color0,blue)"));
    assert!(out.contains("var(--poloto_bg_color,aliceblue)"));
}

#[test]
fn no_svg_tag_flag_drops_wrapper() {
    let mut p = Plotter::new(s("t"), s("x"), s("y"));
    p.with_no_svg_tag();
    let out = p.render_to_string();
    assert_eq!(count(&out, "<svg"), 0);
    assert_eq!(count(&out, "</svg>"), 0);
    assert!(out.contains("<style"));
}

#[test]
fn series_name_is_attached_to_its_group() {
    let mut p = Plotter::new(s("t"), s("x"), s("y"));
    p.line(s("cosine wave"), DualSeq::rederive(vec![Point::new(0, 0), Point::new(1000, 1000)]));
    let out = p.render_to_string();
    assert!(out.contains("data-name=\"cosine wave\""));
}

#[test]
fn default_svg_attrs_has_canvas_and_namespace() {
    let a = poloto::default_svg_attrs();
    assert!(a.contains("width=\"800\""));
    assert!(a.contains("height=\"500\""));
    assert!(a.contains("http://www.w3.org/2000/svg"));
}
