//! Tests of the atlas model and the renderer: the pixel-event stream, its
//! determinism, its extent, the background policy, the translation offset,
//! and the defensive behaviour on short atlases.

use picofont::atlas::GlyphAtlas;
use picofont::mapping::char_offset;
use picofont::render::render;
use picofont::render::PixelEvent;
use picofont::render::TextStyle;

/// A two-cell atlas (8 pixels wide, 4x6 cells) whose glyph 130 (`'A'`) is a
/// diagonal and whose glyph 132 (`'B'`) is a box; everything else is blank.
fn small_atlas() -> GlyphAtlas {
    let a_rows: [u8; 6] = [0b1000, 0b0100, 0b0010, 0b0001, 0b1111, 0b0000];
    let b_rows: [u8; 6] = [0b1111, 0b1001, 0b1001, 0b1001, 0b1111, 0b0000];
    // Glyph 130 sits at cell row 65 column 0, glyph 132 at cell row 66
    // column 0; one byte holds one 8-pixel atlas row.
    let mut data = vec![0u8; 67 * 6];
    for r in 0..6 {
        data[65 * 6 + r] = a_rows[r] << 4;
        data[66 * 6 + r] = b_rows[r] << 4;
    }
    GlyphAtlas::new(data, 8, 4, 6).expect("valid atlas dimensions")
}

fn plain_style() -> TextStyle<u8> {
    TextStyle { foreground: 9, background: None, offset_x: 0, offset_y: 0 }
}

fn chars_of(text: &str) -> Vec<char> {
    text.chars().collect()
}

#[test]
fn test_empty_text_empty_stream() {
    let atlas = small_atlas();
    let styles = [
        plain_style(),
        TextStyle { foreground: 1, background: Some(7), offset_x: -3, offset_y: 12 },
    ];
    for style in styles {
        assert!(render(&atlas, &[], 0, 0, style).is_empty());
        assert!(render(&atlas, &[], -40, 1000, style).is_empty());
    }
}

#[test]
fn test_identical_arguments_identical_streams() {
    let atlas = small_atlas();
    let text = chars_of("AB?A");
    let style = TextStyle { foreground: 3, background: Some(8), offset_x: 2, offset_y: -1 };
    let first = render(&atlas, &text, 17, -5, style);
    let second = render(&atlas, &text, 17, -5, style);
    assert_eq!(first, second);
}

#[test]
fn test_cursor_advances_one_cell_per_character() {
    let atlas = small_atlas();
    let text = chars_of("ABA");
    let style = TextStyle { foreground: 9, background: Some(1), offset_x: 0, offset_y: 0 };
    let events = render(&atlas, &text, 0, 0, style);
    // With a background color every candidate position emits one event:
    // exactly cell_width * cell_height per character.
    assert_eq!(events.len(), 3 * 4 * 6);
    for (i, chunk) in events.chunks(24).enumerate() {
        let left = 4 * i as i64;
        for e in chunk {
            assert!(left <= e.x && e.x < left + 4);
            assert!(0 <= e.y && e.y < 6);
        }
    }
}

#[test]
fn test_stream_bounded_without_background() {
    let atlas = small_atlas();
    let text = chars_of("AAAA");
    let events = render(&atlas, &text, 0, 0, plain_style());
    assert!(events.len() <= 4 * 4 * 6);
    assert!(!events.is_empty());
    for e in &events {
        assert!(0 <= e.x && e.x < 16);
        assert!(0 <= e.y && e.y < 6);
    }
}

#[test]
fn test_golden_single_glyph() {
    let atlas = small_atlas();
    let events = render(&atlas, &chars_of("A"), 0, 0, plain_style());
    // The diagonal glyph, raster order, foreground only.
    let expected: Vec<(i64, i64)> = vec![
        (0, 0),
        (1, 1),
        (2, 2),
        (3, 3),
        (0, 4),
        (1, 4),
        (2, 4),
        (3, 4),
    ];
    let actual: Vec<(i64, i64)> = events.iter().map(|e| (e.x, e.y)).collect();
    assert_eq!(actual, expected);
    assert!(events.iter().all(|e| e.color == 9));
}

#[test]
fn test_golden_with_background_and_origin() {
    let atlas = small_atlas();
    let style = TextStyle { foreground: 9, background: Some(2), offset_x: 0, offset_y: 0 };
    let events = render(&atlas, &chars_of("A"), 10, 20, style);
    assert_eq!(events.len(), 24);
    let mut expected = Vec::new();
    let a_rows: [u8; 6] = [0b1000, 0b0100, 0b0010, 0b0001, 0b1111, 0b0000];
    for y in 0..6usize {
        for x in 0..4usize {
            let lit = a_rows[y] & (0b1000 >> x) != 0;
            expected.push(PixelEvent {
                x: 10 + x as i64,
                y: 20 + y as i64,
                color: if lit { 9u8 } else { 2u8 },
            });
        }
    }
    assert_eq!(events, expected);
}

#[test]
fn test_style_offset_translates_origin() {
    let atlas = small_atlas();
    let text = chars_of("BA");
    let offset_style =
        TextStyle { foreground: 5, background: Some(1), offset_x: 3, offset_y: -4 };
    let base_style = TextStyle { foreground: 5, background: Some(1), offset_x: 0, offset_y: 0 };
    let shifted = render(&atlas, &text, 100, 200, offset_style);
    let baseline = render(&atlas, &text, 103, 196, base_style);
    assert_eq!(shifted, baseline);
}

#[test]
fn test_negative_origin_allowed() {
    let atlas = small_atlas();
    let events = render(&atlas, &chars_of("B"), -2, -3, plain_style());
    assert!(!events.is_empty());
    for e in &events {
        assert!(-2 <= e.x && e.x < 2);
        assert!(-3 <= e.y && e.y < 3);
    }
}

#[test]
fn test_unmapped_glyph_cell_is_blank() {
    // 'z' maps inside the atlas but its cell was never populated: no
    // foreground events, only background ones when configured.
    let atlas = small_atlas();
    let events = render(&atlas, &chars_of("z"), 0, 0, plain_style());
    assert!(events.is_empty());
    let style = TextStyle { foreground: 9, background: Some(4), offset_x: 0, offset_y: 0 };
    let events = render(&atlas, &chars_of("z"), 0, 0, style);
    assert_eq!(events.len(), 24);
    assert!(events.iter().all(|e| e.color == 4));
}

#[test]
fn test_short_atlas_reads_blank() {
    // A truncated atlas: glyph cells beyond the stored bytes are blank, and
    // nothing fails.
    let atlas = GlyphAtlas::new(vec![0xFF; 6], 8, 4, 6).expect("valid atlas dimensions");
    assert!(atlas.pixel_at(0, 0, 0));
    assert!(!atlas.pixel_at(2, 0, 0));
    assert!(!atlas.pixel_at(1000, 3, 5));
    let events = render(&atlas, &chars_of("zz"), 0, 0, plain_style());
    assert!(events.is_empty());
}

#[test]
fn test_atlas_rejects_bad_dimensions() {
    assert!(GlyphAtlas::new(vec![0; 96], 8, 0, 6).is_none());
    assert!(GlyphAtlas::new(vec![0; 96], 8, 4, 0).is_none());
    assert!(GlyphAtlas::new(vec![0; 96], 2, 4, 6).is_none());
    assert!(GlyphAtlas::new(vec![0; 96], 10, 4, 6).is_none());
    assert!(GlyphAtlas::new(vec![0; 96], 8, 4, 6).is_some());
}

#[test]
fn test_foreground_events_match_pixel_at() {
    let atlas = small_atlas();
    let text = chars_of("BA");
    let events = render(&atlas, &text, 0, 0, plain_style());
    for e in &events {
        let i = (e.x / 4) as usize;
        let lx = (e.x % 4) as usize;
        let glyph = char_offset(text[i]);
        assert!(atlas.pixel_at(glyph, lx, e.y as usize));
    }
}

#[test]
fn test_standard_atlas_fallback_glyph() {
    // The standard layout: 128 pixels wide, 4x6 cells, 32 cells per row.
    // Glyph 126 ('?') sits at cell row 3, column 30: pixel rows 18..24,
    // pixel columns 120..124, i.e. the high nibble of byte 15 of each row.
    let rows: [u8; 6] = [0b0110, 0b1010, 0b0010, 0b0100, 0b0000, 0b0100];
    let mut data = vec![0u8; 960];
    for (r, bits) in rows.iter().enumerate() {
        data[(18 + r) * 16 + 15] = bits << 4;
    }
    let atlas = GlyphAtlas::new_standard(data).expect("standard dimensions are valid");
    assert!(atlas.pixel_at(126, 1, 0));
    assert!(atlas.pixel_at(126, 2, 0));
    assert!(!atlas.pixel_at(126, 0, 0));
    // An unmappable codepoint renders with the '?' pattern: one foreground
    // event per set bit, at the origin.
    let events = render(&atlas, &chars_of("😀"), 0, 0, plain_style());
    let expected: Vec<(i64, i64)> = vec![(1, 0), (2, 0), (0, 1), (2, 1), (2, 2), (1, 3), (1, 5)];
    let actual: Vec<(i64, i64)> = events.iter().map(|e| (e.x, e.y)).collect();
    assert_eq!(actual, expected);
}

#[test]
fn test_wide_pair_composes_one_symbol() {
    // The two halves of a wide-glyph pair, rendered adjacently, form one
    // 8x6 composite symbol.
    let composite: [&str; 6] = [
        "..XXXX..",
        ".X....X.",
        "X......X",
        "X......X",
        ".X....X.",
        "..XXXX..",
    ];
    // Glyphs 0x116 and 0x117 sit at cell row 139, columns 0 and 1: with one
    // byte per 8-pixel atlas row, each composite row is exactly one byte.
    let mut data = vec![0u8; 140 * 6];
    for (r, line) in composite.iter().enumerate() {
        let mut byte = 0u8;
        for (k, px) in line.bytes().enumerate() {
            if px == b'X' {
                byte |= 0x80 >> k;
            }
        }
        data[139 * 6 + r] = byte;
    }
    let atlas = GlyphAtlas::new(data, 8, 4, 6).expect("valid atlas dimensions");
    let events = render(&atlas, &chars_of("\u{96}\u{97}"), 0, 0, plain_style());
    let mut painted = vec![false; 8 * 6];
    for e in &events {
        painted[e.y as usize * 8 + e.x as usize] = true;
    }
    for (r, line) in composite.iter().enumerate() {
        for (k, px) in line.bytes().enumerate() {
            assert_eq!(painted[r * 8 + k], px == b'X', "pixel ({k}, {r})");
        }
    }
}
