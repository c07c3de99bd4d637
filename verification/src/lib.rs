//! poloto - plot data to SVG, styled with CSS.
//!
//! Series are handed over as dual-access sequences of fixed-point
//! coordinates; rendering reads every series twice (once for bounds,
//! once for geometry) and writes a single SVG document.

pub mod point;
pub mod dual;
pub mod numfmt;
pub mod bounds;
pub mod ticks;
pub mod sink;
pub mod style;
pub mod transform;
pub mod geom;
pub mod render;

pub use render::plot;
pub use render::Plotter;
pub use render::PlotType;
pub use style::default_svg_attrs;
pub use style::NUM_COLORS;
