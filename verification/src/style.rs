use vstd::prelude::*;

verus! {

/// The class of the svg tag.
pub const CLASS: &'static str = "poloto";

/// The width of the svg canvas, in pixels.
pub const WIDTH: i64 = 800;

/// The height of the svg canvas, in pixels.
pub const HEIGHT: i64 = 500;

/// The xml namespace of the svg tag.
pub const XMLNS: &'static str = "http://www.w3.org/2000/svg";

/// How many palette colors exist; the i-th series uses color `i % NUM_COLORS`.
pub const NUM_COLORS: usize = 8;

/// The default svg tag attribute text: class, fixed canvas size, view
/// box and namespace.
pub fn default_svg_attrs() -> (r: &'static str)
    ensures
        r@ == default_svg_attr_text(),
{
    "class=\"poloto\" width=\"800\" height=\"500\" viewBox=\"0 0 800 500\" xmlns=\"http://www.w3.org/2000/svg\""
}

pub open spec fn default_svg_attr_text() -> Seq<char> {
    "class=\"poloto\" width=\"800\" height=\"500\" viewBox=\"0 0 800 500\" xmlns=\"http://www.w3.org/2000/svg\""@
}

/// The default stylesheet: fixed background, foreground and eight series
/// colors, keyed by the classes the renderer emits.
pub fn default_style() -> (r: &'static str)
    ensures
        r@ == default_style_text(),
{
    ".poloto{font-family:sans-serif;stroke-width:2}.poloto_text{fill:black}.poloto_axis_lines{stroke:black;fill:none}.poloto_background{fill:aliceblue}.poloto0stroke{stroke:blue}.poloto1stroke{stroke:orange}.poloto2stroke{stroke:red}.poloto3stroke{stroke:green}.poloto4stroke{stroke:purple}.poloto5stroke{stroke:aqua}.poloto6stroke{stroke:pink}.poloto7stroke{stroke:brown}.poloto0fill{fill:blue}.poloto1fill{fill:orange}.poloto2fill{fill:red}.poloto3fill{fill:green}.poloto4fill{fill:purple}.poloto5fill{fill:aqua}.poloto6fill{fill:pink}.poloto7fill{fill:brown}"
}

pub open spec fn default_style_text() -> Seq<char> {
    ".poloto{font-family:sans-serif;stroke-width:2}.poloto_text{fill:black}.poloto_axis_lines{stroke:black;fill:none}.poloto_background{fill:aliceblue}.poloto0stroke{stroke:blue}.poloto1stroke{stroke:orange}.poloto2stroke{stroke:red}.poloto3stroke{stroke:green}.poloto4stroke{stroke:purple}.poloto5stroke{stroke:aqua}.poloto6stroke{stroke:pink}.poloto7stroke{stroke:brown}.poloto0fill{fill:blue}.poloto1fill{fill:orange}.poloto2fill{fill:red}.poloto3fill{fill:green}.poloto4fill{fill:purple}.poloto5fill{fill:aqua}.poloto6fill{fill:pink}.poloto7fill{fill:brown}"@
}

/// The variable-parameterized stylesheet: the same classes, each color
/// read from a CSS custom property with the fixed color as its fallback,
/// so an embedding page can re-theme the chart.
pub fn variables_style() -> (r: &'static str)
    ensures
        r@ == variables_style_text(),
{
    ".poloto{font-family:sans-serif;stroke-width:2}.poloto_text{fill:var(--poloto_fg_color,black)}.poloto_axis_lines{stroke:var(--poloto_fg_color,black);fill:none}.poloto_background{fill:var(--poloto_bg_color,aliceblue)}.poloto0stroke{stroke:var(--poloto_color0,blue)}.poloto1stroke{stroke:var(--poloto_color1,orange)}.poloto2stroke{stroke:var(--poloto_color2,red)}.poloto3stroke{stroke:var(--poloto_color3,green)}.poloto4stroke{stroke:var(--poloto_color4,purple)}.poloto5stroke{stroke:var(--poloto_color5,aqua)}.poloto6stroke{stroke:var(--poloto_color6,pink)}.poloto7stroke{stroke:var(--poloto_color7,brown)}.poloto0fill{fill:var(--poloto_color0,blue)}.poloto1fill{fill:var(--poloto_color1,orange)}.poloto2fill{fill:var(--poloto_color2,red)}.poloto3fill{fill:var(--poloto_color3,green)}.poloto4fill{fill:var(--poloto_color4,purple)}.poloto5fill{fill:var(--poloto_color5,aqua)}.poloto6fill{fill:var(--poloto_color6,pink)}.poloto7fill{fill:var(--poloto_color7,brown)}"
}

pub open spec fn variables_style_text() -> Seq<char> {
    ".poloto{font-family:sans-serif;stroke-width:2}.poloto_text{fill:var(--poloto_fg_color,black)}.poloto_axis_lines{stroke:var(--poloto_fg_color,black);fill:none}.poloto_background{fill:var(--poloto_bg_color,aliceblue)}.poloto0stroke{stroke:var(--poloto_color0,blue)}.poloto1stroke{stroke:var(--poloto_color1,orange)}.poloto2stroke{stroke:var(--poloto_color2,red)}.poloto3stroke{stroke:var(--poloto_color3,green)}.poloto4stroke{stroke:var(--poloto_color4,purple)}.poloto5stroke{stroke:var(--poloto_color5,aqua)}.poloto6stroke{stroke:var(--poloto_color6,pink)}.poloto7stroke{stroke:var(--poloto_color7,brown)}.poloto0fill{fill:var(--poloto_color0,blue)}.poloto1fill{fill:var(--poloto_color1,orange)}.poloto2fill{fill:var(--poloto_color2,red)}.poloto3fill{fill:var(--poloto_color3,green)}.poloto4fill{fill:var(--poloto_color4,purple)}.poloto5fill{fill:var(--poloto_color5,aqua)}.poloto6fill{fill:var(--poloto_color6,pink)}.poloto7fill{fill:var(--poloto_color7,brown)}"@
}

/// The style text the renderer embeds, by flag.
pub open spec fn style_text(css_variables: bool) -> Seq<char> {
    if css_variables {
        variables_style_text()
    } else {
        default_style_text()
    }
}

} // verus!
