//! A tiny fixed-width bitmap font engine: a packed 1-bit glyph atlas, a
//! codepoint-to-glyph mapping with a wide-character convention and a fallback
//! glyph, and a renderer that turns a text plus style into a deterministic
//! stream of colored pixel events.

pub mod atlas;
pub mod mapping;
pub mod render;
