//! A glyph-layout engine and font-atlas data model with a binary
//! persistence format.
//!
//! A [`font::Font`] holds per-character glyph metrics, a kerning table,
//! font-wide vertical metrics, and a signed-distance-field atlas bitmap.
//! The codec turns a font into a compact binary blob (a fixed structural
//! encoding wrapped in LZ4 compression) and back. The layout engine walks a
//! character sequence and emits one positioned glyph quad per renderable
//! character, tracking the caret, the current line, and the index within
//! the line.

pub mod scalar;
pub mod rectangle;
pub mod tables;
pub mod font;
pub mod text;
pub mod codec;
pub mod compress;
