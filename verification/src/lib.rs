//! Sparkline rendering: map a sequence of fixed-point samples onto a
//! single-line string of block-height glyphs via linear min-max scaling.

mod palette;
mod render;

pub use palette::glyph_str;
pub use render::render_dense;
pub use render::render_sparse;
