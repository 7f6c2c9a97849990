//! The codepoint-to-glyph-index mapping policy.
//!
//! Codepoints in `[0x00, 0x7F]` map to twice their value: every character in
//! the low range owns a pair of adjacent atlas cells, of which ordinary
//! single-width glyphs populate only the first. Codepoints in `[0x80, 0xB3]`
//! map to their value plus `0x80`: this band holds the left and right halves
//! of wide symbol glyphs, drawn as two adjacent ordinary cells. Every other
//! codepoint falls back to the glyph of `'?'`.

use vstd::prelude::*;

verus! {

/// The glyph index assigned to a codepoint: total and deterministic over all
/// Unicode scalar values.
pub open spec fn glyph_index_of(c: char) -> int {
    if c as u32 <= 0x7f {
        (c as u32) * 2
    } else if c as u32 <= 0xb3 {
        c as u32 + 0x80
    } else {
        ('?' as u32) * 2
    }
}

/// The largest glyph index the mapping can produce.
pub open spec fn max_glyph_index() -> int {
    0x133
}

/// Maps a codepoint to its glyph index in the atlas.
pub fn char_offset(c: char) -> (index: usize)
    ensures
        index == glyph_index_of(c),
        index <= max_glyph_index(),
        c as u32 > 0xb3 ==> index == glyph_index_of('?'),
{
    let u = c as u32;
    if u <= 0x7f {
        (u as usize) * 2
    } else if u <= 0xb3 {
        u as usize + 0x80
    } else {
        0x7e
    }
}

/// The mapping never exceeds `max_glyph_index`, whatever the codepoint.
pub proof fn lemma_glyph_index_bounded(c: char)
    ensures
        0 <= glyph_index_of(c) <= max_glyph_index(),
{
}

/// Within the mapped codepoint ranges `[0x00, 0x7F]` and `[0x80, 0xB3]` the
/// mapping is injective: distinct codepoints get distinct glyph indices.
pub proof fn lemma_glyph_index_injective(c1: char, c2: char)
    requires
        c1 as u32 <= 0xb3,
        c2 as u32 <= 0xb3,
        glyph_index_of(c1) == glyph_index_of(c2),
    ensures
        c1 == c2,
{
}

/// Every codepoint outside the two mapped ranges shares the fallback glyph
/// of `'?'`.
pub proof fn lemma_glyph_index_fallback(c: char)
    requires
        c as u32 > 0xb3,
    ensures
        glyph_index_of(c) == glyph_index_of('?'),
{
}

} // verus!
