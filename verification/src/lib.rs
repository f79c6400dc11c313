//! Positions runs of styled text as glyphs on an integer grid.
//!
//! A section of text runs is broken into words and lines, aligned, and
//! turned into a list of positioned glyphs. A brush keeps the layouts it has
//! made and hands them out again for equal sections. Every length is a whole
//! number of layout units; the caller decides how many units make one pixel.
//! Sums of lengths stop at the ends of the `i64` range, and `i64::MAX` as a
//! bound means that there is none.
//!
//! A font is a table of metrics in font units, and the scale of a run says how
//! many layout units one font unit takes. A brush is built from its fonts and
//! then asked for the glyphs of a section or for the room they take:
//!
//! ```text
//! let mut brush = HeadlessGlyphBrushBuilder::using_font(font).build();
//! let glyphs = brush.glyphs(&section);
//! let room = brush.pixel_bounds(&section);
//! ```
//!
//! Every run of a section must name a font that the brush has.

pub mod cache;
pub mod font;
pub mod geometry;
pub mod headless;
pub mod key;
pub mod layout;
pub mod linebreak;
pub mod section;
pub mod text;

pub use crate::cache::GlyphedSection;
pub use crate::font::{
    BoundingBox, Font, FontId, GlyphEntry, GlyphId, GlyphMetrics, KerningPair, PositionedGlyph,
    Scale, ScaledGlyph, VMetrics,
};
pub use crate::geometry::{Bounds, Point, Rect};
pub use crate::headless::{HeadlessGlyphBrush, HeadlessGlyphBrushBuilder};
pub use crate::layout::{GlyphPositioner, HorizontalAlign, Layout, LayoutLeftover, VerticalAlign};
pub use crate::linebreak::{BuiltInLineBreaker, LineBreak, LineBreaker};
pub use crate::section::{
    Color, GlyphInfo, RemainingNormCharIndices, SectionGlyphInfo, SectionText, VariedSection,
};
