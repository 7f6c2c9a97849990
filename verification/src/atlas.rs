//! The packed 1-bit-per-pixel glyph atlas.
//!
//! One immutable bitmap holds every glyph in fixed-size cells, laid out left
//! to right and top to bottom at consecutive integer indices. Pixels are
//! packed eight to a byte, most significant bit first, row-major over the
//! whole atlas image. The atlas is built once and never mutated; every
//! lookup of a pixel that falls outside the stored bytes reads as blank
//! rather than failing, so a truncated atlas degrades to blank glyphs.

use vstd::prelude::*;

use crate::mapping::glyph_index_of;
use crate::mapping::max_glyph_index;

verus! {

/// Whether bit `i` of a packed 1-bit bitmap is set. Bits beyond the stored
/// bytes (and negative positions) read as clear.
pub open spec fn bit_at(data: Seq<u8>, i: int) -> bool {
    if 0 <= i && i / 8 < data.len() {
        (data[i / 8] >> ((7 - (i % 8)) as u8)) & 1 == 1
    } else {
        false
    }
}

/// Total pixel width of the standard atlas image of this font.
pub const STANDARD_ATLAS_WIDTH: usize = 128;

/// Pixel width of one glyph cell of this font.
pub const STANDARD_CELL_WIDTH: usize = 4;

/// Pixel height of one glyph cell of this font.
pub const STANDARD_CELL_HEIGHT: usize = 6;

/// A packed, immutable 1-bit-per-pixel glyph atlas.
pub struct GlyphAtlas {
    /// The packed bitmap: 8 pixels per byte, most significant bit first,
    /// row-major over the whole atlas image.
    pub data: Vec<u8>,
    /// Total pixel width of the atlas image.
    pub atlas_width: usize,
    /// Pixel width of one glyph cell.
    pub cell_width: usize,
    /// Pixel height of one glyph cell.
    pub cell_height: usize,
}

impl GlyphAtlas {
    /// Well-formedness: cells are non-empty, a whole number of cells spans
    /// each atlas row, pixel dimensions are modest enough for coordinate
    /// arithmetic, and the total bit count fits the machine word.
    pub open spec fn wf(&self) -> bool {
        &&& 0 < self.cell_width <= self.atlas_width
        &&& 0 < self.cell_height
        &&& self.atlas_width % self.cell_width == 0
        &&& self.atlas_width <= u32::MAX
        &&& self.cell_height <= u32::MAX
        &&& 8 * self.data@.len() <= usize::MAX
    }

    /// How many glyph cells stand side by side in one atlas row.
    pub open spec fn glyphs_per_row(&self) -> int {
        self.atlas_width as int / self.cell_width as int
    }

    /// Position, in the packed bitmap, of the pixel at cell-local offset
    /// `(lx, ly)` within the glyph cell at `glyph`.
    pub open spec fn glyph_pixel_index(&self, glyph: int, lx: int, ly: int) -> int {
        let col = glyph % self.glyphs_per_row();
        let row = glyph / self.glyphs_per_row();
        (row * self.cell_height + ly) * self.atlas_width + col * self.cell_width + lx
    }

    /// Whether the pixel at cell-local offset `(lx, ly)` of the glyph cell
    /// at `glyph` is set. Blank for any pixel beyond the stored bytes.
    pub open spec fn glyph_pixel(&self, glyph: int, lx: int, ly: int) -> bool {
        bit_at(self.data@, self.glyph_pixel_index(glyph, lx, ly))
    }

    /// Builds an atlas from a packed bitmap and its dimensions; rejects
    /// dimensions that break the atlas invariant.
    pub fn new(data: Vec<u8>, atlas_width: usize, cell_width: usize, cell_height: usize) -> (result:
        Option<GlyphAtlas>)
        ensures
            match result {
                Some(atlas) => {
                    &&& atlas.wf()
                    &&& atlas.data@ == data@
                    &&& atlas.atlas_width == atlas_width
                    &&& atlas.cell_width == cell_width
                    &&& atlas.cell_height == cell_height
                },
                None => !(GlyphAtlas {
                    data,
                    atlas_width,
                    cell_width,
                    cell_height,
                }).wf(),
            },
    {
        if cell_width == 0 || cell_height == 0 || atlas_width < cell_width {
            return None;
        }
        if atlas_width % cell_width != 0 {
            return None;
        }
        if atlas_width > u32::MAX as usize || cell_height > u32::MAX as usize {
            return None;
        }
        if data.len() > usize::MAX / 8 {
            return None;
        }
        Some(GlyphAtlas { data, atlas_width, cell_width, cell_height })
    }

    /// Builds the atlas of this font in its standard dimensions: 128 pixels
    /// wide, 4 x 6 glyph cells. Only a bitmap too large for the machine word
    /// is rejected.
    pub fn new_standard(data: Vec<u8>) -> (result: Option<GlyphAtlas>)
        ensures
            match result {
                Some(atlas) => {
                    &&& atlas.wf()
                    &&& atlas.data@ == data@
                    &&& atlas.atlas_width == STANDARD_ATLAS_WIDTH
                    &&& atlas.cell_width == STANDARD_CELL_WIDTH
                    &&& atlas.cell_height == STANDARD_CELL_HEIGHT
                },
                None => 8 * data@.len() > usize::MAX,
            },
    {
        Self::new(data, STANDARD_ATLAS_WIDTH, STANDARD_CELL_WIDTH, STANDARD_CELL_HEIGHT)
    }

    /// Reads one pixel of one glyph cell. Out-of-range glyph indices, and
    /// glyph cells that reach beyond a short bitmap, read as blank.
    pub fn pixel_at(&self, glyph_index: usize, local_x: usize, local_y: usize) -> (set: bool)
        requires
            self.wf(),
            local_x < self.cell_width,
            local_y < self.cell_height,
        ensures
            set == self.glyph_pixel(glyph_index as int, local_x as int, local_y as int),
    {
        let ghost i = self.glyph_pixel_index(glyph_index as int, local_x as int, local_y as int);
        let gpr = self.atlas_width / self.cell_width;
        proof {
            vstd::arithmetic::div_mod::lemma_div_non_zero(
                self.atlas_width as int,
                self.cell_width as int,
            );
            vstd::arithmetic::div_mod::lemma_fundamental_div_mod(
                self.atlas_width as int,
                self.cell_width as int,
            );
            assert(self.atlas_width as int == self.cell_width as int * gpr);
            vstd::arithmetic::mul::lemma_mul_is_commutative(self.cell_width as int, gpr as int);
            assert(gpr * self.cell_width == self.atlas_width);
        }
        let col = glyph_index % gpr;
        let row = glyph_index / gpr;
        proof {
            vstd::arithmetic::div_mod::lemma_mod_division_less_than_divisor(
                glyph_index as int,
                gpr as int,
            );
            assert(col < gpr);
            vstd::arithmetic::mul::lemma_mul_inequality(
                col as int,
                gpr - 1,
                self.cell_width as int,
            );
            vstd::arithmetic::mul::lemma_mul_is_distributive_sub_other_way(
                self.cell_width as int,
                gpr as int,
                1,
            );
            assert(col * self.cell_width <= self.atlas_width - self.cell_width);
        }
        let px = col * self.cell_width + local_x;
        let row_top = match row.checked_mul(self.cell_height) {
            Some(v) => v,
            None => {
                proof {
                    lemma_pixel_index_low_bound(
                        row as int,
                        self.cell_height as int,
                        local_y as int,
                        self.atlas_width as int,
                        px as int,
                        usize::MAX as int,
                    );
                }
                return false;
            },
        };
        let py = match row_top.checked_add(local_y) {
            Some(v) => v,
            None => {
                proof {
                    lemma_pixel_index_low_bound(
                        row as int,
                        self.cell_height as int,
                        local_y as int,
                        self.atlas_width as int,
                        px as int,
                        usize::MAX as int,
                    );
                }
                return false;
            },
        };
        let row_bits = match py.checked_mul(self.atlas_width) {
            Some(v) => v,
            None => {
                proof {
                    lemma_pixel_row_bound(
                        py as int,
                        self.atlas_width as int,
                        px as int,
                        usize::MAX as int,
                    );
                }
                return false;
            },
        };
        let bit = match row_bits.checked_add(px) {
            Some(v) => v,
            None => {
                return false;
            },
        };
        assert(bit == i);
        if bit / 8 >= self.data.len() {
            return false;
        }
        let byte = self.data[bit / 8];
        let shift: u8 = 7 - (bit % 8) as u8;
        (byte >> shift) & 1 == 1
    }
}

/// If the pixel row number `row * cell_height + ly` alone exceeds the
/// machine word, the packed bit position lies past any storable bitmap.
proof fn lemma_pixel_index_low_bound(
    row: int,
    cell_height: int,
    ly: int,
    atlas_width: int,
    px: int,
    cap: int,
)
    requires
        0 <= row,
        0 < cell_height,
        0 <= ly,
        1 <= atlas_width,
        0 <= px,
        0 <= cap,
        row * cell_height + ly > cap,
    ensures
        (row * cell_height + ly) * atlas_width + px > cap,
{
    vstd::arithmetic::mul::lemma_mul_increases(atlas_width, row * cell_height + ly);
    assert(row * cell_height + ly <= atlas_width * (row * cell_height + ly));
    vstd::arithmetic::mul::lemma_mul_is_commutative(atlas_width, row * cell_height + ly);
}

/// If the bit count of the full pixel rows above a pixel alone exceeds the
/// machine word, the packed bit position lies past any storable bitmap.
proof fn lemma_pixel_row_bound(py: int, atlas_width: int, px: int, cap: int)
    requires
        0 <= py,
        1 <= atlas_width,
        0 <= px,
        py * atlas_width > cap,
    ensures
        py * atlas_width + px > cap,
{
}

/// Every glyph index the codepoint mapping can produce addresses a cell
/// that lies wholly inside the populated region of the standard atlas:
/// 128 pixels wide, 4 x 6 cells, at least ten cell rows of bitmap.
pub proof fn lemma_mapped_glyph_in_atlas(atlas: GlyphAtlas, c: char, lx: int, ly: int)
    requires
        atlas.atlas_width == STANDARD_ATLAS_WIDTH,
        atlas.cell_width == STANDARD_CELL_WIDTH,
        atlas.cell_height == STANDARD_CELL_HEIGHT,
        atlas.data@.len() >= 960,
        0 <= lx < 4,
        0 <= ly < 6,
    ensures
        0 <= atlas.glyph_pixel_index(glyph_index_of(c), lx, ly),
        atlas.glyph_pixel_index(glyph_index_of(c), lx, ly) / 8 < atlas.data@.len(),
{
    crate::mapping::lemma_glyph_index_bounded(c);
    let g = glyph_index_of(c);
    assert(0 <= g <= max_glyph_index());
    assert(atlas.glyphs_per_row() == 32);
    assert(0 <= g % 32 < 32);
    assert(0 <= g / 32 <= 9);
    assert(atlas.glyph_pixel_index(g, lx, ly) <= (9 * 6 + 5) * 128 + 31 * 4 + 3);
}

} // verus!
