//! Text rendering support for TrueType/OpenType fonts on `embedded_graphics`
//! draw targets.
//!
//! This crate holds the verified core of the renderer: anti-aliased colour
//! blending, the pixels a rasterised glyph produces, baseline offsets and the
//! integer geometry of drawn and measured strings.

pub mod color;
pub mod geometry;
pub mod glyph;
pub mod text;
