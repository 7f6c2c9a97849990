//! The text renderer.
//!
//! Rendering is a pure fold over the input characters. A cursor starts at
//! the origin (after the style's translation offset is applied) and advances
//! by exactly one cell width per character. For each character the renderer
//! walks the glyph cell in raster order and emits a foreground event for
//! each set atlas bit, a background event for each clear bit when a
//! background color is configured, and nothing otherwise. The stream is
//! finite, deterministic, and total: unmappable codepoints degrade to the
//! fallback glyph instead of failing.

use vstd::prelude::*;

use crate::atlas::GlyphAtlas;
use crate::mapping::char_offset;
use crate::mapping::glyph_index_of;

verus! {

/// One pixel event: surface coordinates and the color to write there.
#[derive(Clone, Copy, PartialEq, Eq, Debug)]
pub struct PixelEvent<C> {
    pub x: i64,
    pub y: i64,
    pub color: C,
}

/// The style of one render call: a foreground color, an optional background
/// color (`None` means transparent: clear atlas bits emit nothing), and a
/// translation offset added to the origin before rendering begins.
#[derive(Clone, Copy, PartialEq, Eq, Debug)]
pub struct TextStyle<C> {
    pub foreground: C,
    pub background: Option<C>,
    pub offset_x: i64,
    pub offset_y: i64,
}

/// The events emitted for pixel `k` (in raster order: row-major, so the
/// cell-local offset is `(k % cell_width, k / cell_width)`) of the glyph
/// cell at `glyph`, drawn with its top-left corner at `(base_x, base_y)`.
pub open spec fn pixel_events_at<C>(
    atlas: GlyphAtlas,
    glyph: int,
    base_x: int,
    base_y: int,
    style: TextStyle<C>,
    k: int,
) -> Seq<PixelEvent<C>> {
    let lx = k % atlas.cell_width as int;
    let ly = k / atlas.cell_width as int;
    if atlas.glyph_pixel(glyph, lx, ly) {
        seq![
            (PixelEvent {
                x: (base_x + lx) as i64,
                y: (base_y + ly) as i64,
                color: style.foreground,
            }),
        ]
    } else if style.background is Some {
        seq![
            (PixelEvent { x: (base_x + lx) as i64, y: (base_y + ly) as i64, color: style.background->0 }),
        ]
    } else {
        Seq::empty()
    }
}

/// The events of the first `k` pixels (raster order) of one glyph cell.
pub open spec fn glyph_cell_events_upto<C>(
    atlas: GlyphAtlas,
    glyph: int,
    base_x: int,
    base_y: int,
    style: TextStyle<C>,
    k: int,
) -> Seq<PixelEvent<C>>
    decreases k,
{
    if k <= 0 {
        Seq::empty()
    } else {
        glyph_cell_events_upto(atlas, glyph, base_x, base_y, style, k - 1) + pixel_events_at(
            atlas,
            glyph,
            base_x,
            base_y,
            style,
            k - 1,
        )
    }
}

/// The events of one whole glyph cell drawn at `(base_x, base_y)`.
pub open spec fn glyph_events<C>(
    atlas: GlyphAtlas,
    glyph: int,
    base_x: int,
    base_y: int,
    style: TextStyle<C>,
) -> Seq<PixelEvent<C>> {
    glyph_cell_events_upto(
        atlas,
        glyph,
        base_x,
        base_y,
        style,
        atlas.cell_width * atlas.cell_height,
    )
}

/// The events of the first `n` characters of a text whose first glyph cell
/// is based at `(base_x, base_y)`: glyph after glyph, left to right, each
/// one cell width further on.
pub open spec fn text_events_upto<C>(
    atlas: GlyphAtlas,
    text: Seq<char>,
    base_x: int,
    base_y: int,
    style: TextStyle<C>,
    n: int,
) -> Seq<PixelEvent<C>>
    decreases n,
{
    if n <= 0 {
        Seq::empty()
    } else {
        text_events_upto(atlas, text, base_x, base_y, style, n - 1) + glyph_events(
            atlas,
            glyph_index_of(text[n - 1]),
            base_x + (n - 1) * atlas.cell_width,
            base_y,
            style,
        )
    }
}

/// The whole pixel-event stream of one render call: the style's translation
/// offset is applied to the origin, then every character's glyph cell is
/// emitted in raster order, cells left to right.
pub open spec fn render_events<C>(
    atlas: GlyphAtlas,
    text: Seq<char>,
    origin_x: int,
    origin_y: int,
    style: TextStyle<C>,
) -> Seq<PixelEvent<C>> {
    text_events_upto(
        atlas,
        text,
        origin_x + style.offset_x,
        origin_y + style.offset_y,
        style,
        text.len() as int,
    )
}

/// Renders a text against a glyph atlas into the stream of pixel events
/// described by `render_events`: total over every input text, including the
/// empty text and unmappable codepoints, and fully deterministic.
pub fn render<C: Copy>(
    atlas: &GlyphAtlas,
    text: &[char],
    origin_x: i64,
    origin_y: i64,
    style: TextStyle<C>,
) -> (events: Vec<PixelEvent<C>>)
    requires
        atlas.wf(),
        i64::MIN <= origin_x + style.offset_x,
        origin_x + style.offset_x + text@.len() * atlas.cell_width <= i64::MAX,
        i64::MIN <= origin_y + style.offset_y,
        origin_y + style.offset_y + atlas.cell_height <= i64::MAX,
    ensures
        events@ == render_events(*atlas, text@, origin_x as int, origin_y as int, style),
{
    let cw = atlas.cell_width;
    let ch = atlas.cell_height;
    let eff_x = origin_x + style.offset_x;
    let eff_y = origin_y + style.offset_y;
    let mut events: Vec<PixelEvent<C>> = Vec::new();
    let mut cursor_x: i64 = eff_x;
    let mut i: usize = 0;
    while i < text.len()
        invariant
            atlas.wf(),
            cw == atlas.cell_width,
            ch == atlas.cell_height,
            i <= text@.len(),
            eff_x == origin_x + style.offset_x,
            eff_y == origin_y + style.offset_y,
            eff_x + text@.len() * cw <= i64::MAX,
            eff_y + ch <= i64::MAX,
            cursor_x == eff_x + i * cw,
            events@ == text_events_upto(
                *atlas,
                text@,
                eff_x as int,
                eff_y as int,
                style,
                i as int,
            ),
        decreases text@.len() - i,
    {
        let glyph = char_offset(text[i]);
        proof {
            vstd::arithmetic::mul::lemma_mul_inequality(
                i + 1,
                text@.len() as int,
                cw as int,
            );
            vstd::arithmetic::mul::lemma_mul_is_distributive_add_other_way(
                cw as int,
                i as int,
                1,
            );
            assert(cursor_x + cw <= i64::MAX);
        }
        let mut ly: usize = 0;
        while ly < ch
            invariant
                atlas.wf(),
                cw == atlas.cell_width,
                ch == atlas.cell_height,
                i < text@.len(),
                ly <= ch,
                glyph == glyph_index_of(text@[i as int]),
                eff_y + ch <= i64::MAX,
                cursor_x + cw <= i64::MAX,
                i64::MIN <= eff_y,
                events@ == text_events_upto(
                    *atlas,
                    text@,
                    eff_x as int,
                    eff_y as int,
                    style,
                    i as int,
                ) + glyph_cell_events_upto(
                    *atlas,
                    glyph as int,
                    cursor_x as int,
                    eff_y as int,
                    style,
                    ly * cw,
                ),
            decreases ch - ly,
        {
            let mut lx: usize = 0;
            while lx < cw
                invariant
                    atlas.wf(),
                    cw == atlas.cell_width,
                    ch == atlas.cell_height,
                    i < text@.len(),
                    ly < ch,
                    lx <= cw,
                    glyph == glyph_index_of(text@[i as int]),
                    eff_y + ch <= i64::MAX,
                    cursor_x + cw <= i64::MAX,
                    i64::MIN <= eff_y,
                    events@ == text_events_upto(
                        *atlas,
                        text@,
                        eff_x as int,
                        eff_y as int,
                        style,
                        i as int,
                    ) + glyph_cell_events_upto(
                        *atlas,
                        glyph as int,
                        cursor_x as int,
                        eff_y as int,
                        style,
                        ly * cw + lx,
                    ),
                decreases cw - lx,
            {
                let set = atlas.pixel_at(glyph, lx, ly);
                let ghost k: int = ly as int * cw as int + lx as int;
                proof {
                    vstd::arithmetic::div_mod::lemma_fundamental_div_mod_converse_mod(
                        k,
                        cw as int,
                        ly as int,
                        lx as int,
                    );
                    vstd::arithmetic::div_mod::lemma_fundamental_div_mod_converse_div(
                        k,
                        cw as int,
                        ly as int,
                        lx as int,
                    );
                    assert(k % atlas.cell_width as int == lx as int);
                    assert(k / atlas.cell_width as int == ly as int);
                }
                let px: i64 = cursor_x + lx as i64;
                let py: i64 = eff_y + ly as i64;
                let ghost events_before = events@;
                if set {
                    events.push(PixelEvent { x: px, y: py, color: style.foreground });
                } else {
                    match style.background {
                        Some(bg) => events.push(PixelEvent { x: px, y: py, color: bg }),
                        None => {},
                    }
                }
                proof {
                    let cell_prefix = glyph_cell_events_upto(
                        *atlas,
                        glyph as int,
                        cursor_x as int,
                        eff_y as int,
                        style,
                        k,
                    );
                    let step = pixel_events_at(
                        *atlas,
                        glyph as int,
                        cursor_x as int,
                        eff_y as int,
                        style,
                        k,
                    );
                    assert(events@ =~= events_before + step);
                    assert(glyph_cell_events_upto(
                        *atlas,
                        glyph as int,
                        cursor_x as int,
                        eff_y as int,
                        style,
                        k + 1,
                    ) == cell_prefix + step);
                    assert(events@ =~= text_events_upto(
                        *atlas,
                        text@,
                        eff_x as int,
                        eff_y as int,
                        style,
                        i as int,
                    ) + glyph_cell_events_upto(
                        *atlas,
                        glyph as int,
                        cursor_x as int,
                        eff_y as int,
                        style,
                        k + 1,
                    ));
                }
                lx += 1;
            }
            ly += 1;
            proof {
                vstd::arithmetic::mul::lemma_mul_is_distributive_add_other_way(
                    cw as int,
                    ly as int - 1,
                    1,
                );
                assert(ly * cw == (ly - 1) * cw + cw);
            }
        }
        proof {
            vstd::arithmetic::mul::lemma_mul_is_commutative(ch as int, cw as int);
            assert(glyph_cell_events_upto(
                *atlas,
                glyph as int,
                cursor_x as int,
                eff_y as int,
                style,
                ch * cw,
            ) == glyph_events(*atlas, glyph as int, cursor_x as int, eff_y as int, style));
            assert(events@ == text_events_upto(
                *atlas,
                text@,
                eff_x as int,
                eff_y as int,
                style,
                i as int + 1,
            ));
        }
        i += 1;
        cursor_x = cursor_x + cw as i64;
        proof {
            vstd::arithmetic::mul::lemma_mul_is_distributive_add_other_way(
                cw as int,
                i as int - 1,
                1,
            );
            assert(cursor_x == eff_x + i * cw);
        }
    }
    events
}

/// Rendering the empty text produces the empty pixel stream, whatever the
/// style and origin.
pub proof fn lemma_render_empty<C>(
    atlas: GlyphAtlas,
    origin_x: int,
    origin_y: int,
    style: TextStyle<C>,
)
    ensures
        render_events(atlas, Seq::<char>::empty(), origin_x, origin_y, style) == Seq::<
            PixelEvent<C>,
        >::empty(),
{
}

/// Rendering is deterministic: two streams obtained from identical
/// arguments are identical. `render`'s contract ties every result to
/// `render_events`, a function of the arguments alone.
pub proof fn lemma_render_deterministic<C>(
    atlas: GlyphAtlas,
    text: Seq<char>,
    origin_x: int,
    origin_y: int,
    style: TextStyle<C>,
    s1: Seq<PixelEvent<C>>,
    s2: Seq<PixelEvent<C>>,
)
    requires
        s1 == render_events(atlas, text, origin_x, origin_y, style),
        s2 == render_events(atlas, text, origin_x, origin_y, style),
    ensures
        s1 == s2,
{
}

proof fn lemma_text_events_agree<C>(
    atlas: GlyphAtlas,
    t1: Seq<char>,
    t2: Seq<char>,
    base_x: int,
    base_y: int,
    style: TextStyle<C>,
    n: int,
)
    requires
        n <= t1.len(),
        n <= t2.len(),
        forall|j: int| 0 <= j < n ==> glyph_index_of(t1[j]) == glyph_index_of(t2[j]),
    ensures
        text_events_upto(atlas, t1, base_x, base_y, style, n) == text_events_upto(
            atlas,
            t2,
            base_x,
            base_y,
            style,
            n,
        ),
    decreases n,
{
    if n > 0 {
        lemma_text_events_agree(atlas, t1, t2, base_x, base_y, style, n - 1);
    }
}

/// The stream depends on the text only through each character's glyph
/// index: texts of equal length whose characters map to the same glyph
/// indices render identically. In particular a text of unmappable
/// codepoints renders exactly as the same number of `'?'` does.
pub proof fn lemma_render_same_glyphs<C>(
    atlas: GlyphAtlas,
    t1: Seq<char>,
    t2: Seq<char>,
    origin_x: int,
    origin_y: int,
    style: TextStyle<C>,
)
    requires
        t1.len() == t2.len(),
        forall|j: int| 0 <= j < t1.len() ==> glyph_index_of(t1[j]) == glyph_index_of(t2[j]),
    ensures
        render_events(atlas, t1, origin_x, origin_y, style) == render_events(
            atlas,
            t2,
            origin_x,
            origin_y,
            style,
        ),
{
    lemma_text_events_agree(
        atlas,
        t1,
        t2,
        origin_x + style.offset_x,
        origin_y + style.offset_y,
        style,
        t1.len() as int,
    );
}

proof fn lemma_cell_events_extent<C>(
    atlas: GlyphAtlas,
    glyph: int,
    base_x: int,
    base_y: int,
    style: TextStyle<C>,
    k: int,
)
    requires
        atlas.wf(),
        0 <= k <= atlas.cell_width * atlas.cell_height,
        i64::MIN <= base_x,
        base_x + atlas.cell_width <= i64::MAX,
        i64::MIN <= base_y,
        base_y + atlas.cell_height <= i64::MAX,
    ensures
        glyph_cell_events_upto(atlas, glyph, base_x, base_y, style, k).len() <= k,
        forall|j: int|
            0 <= j < glyph_cell_events_upto(atlas, glyph, base_x, base_y, style, k).len()
                ==> {
                let ev = #[trigger] glyph_cell_events_upto(
                    atlas,
                    glyph,
                    base_x,
                    base_y,
                    style,
                    k,
                )[j];
                &&& base_x <= ev.x < base_x + atlas.cell_width
                &&& base_y <= ev.y < base_y + atlas.cell_height
            },
    decreases k,
{
    if k > 0 {
        lemma_cell_events_extent(atlas, glyph, base_x, base_y, style, k - 1);
        let cw = atlas.cell_width as int;
        let ch = atlas.cell_height as int;
        vstd::arithmetic::div_mod::lemma_mod_division_less_than_divisor(k - 1, cw);
        vstd::arithmetic::div_mod::lemma_div_pos_is_pos(k - 1, cw);
        vstd::arithmetic::div_mod::lemma_multiply_divide_lt(k - 1, cw, ch);
        assert((k - 1) / cw < ch);
    }
}

proof fn lemma_text_events_extent<C>(
    atlas: GlyphAtlas,
    text: Seq<char>,
    base_x: int,
    base_y: int,
    style: TextStyle<C>,
    n: int,
)
    requires
        atlas.wf(),
        0 <= n <= text.len(),
        i64::MIN <= base_x,
        base_x + text.len() * atlas.cell_width <= i64::MAX,
        i64::MIN <= base_y,
        base_y + atlas.cell_height <= i64::MAX,
    ensures
        text_events_upto(atlas, text, base_x, base_y, style, n).len() <= n * (atlas.cell_width
            * atlas.cell_height),
        forall|j: int|
            0 <= j < text_events_upto(atlas, text, base_x, base_y, style, n).len() ==> {
                let ev = #[trigger] text_events_upto(atlas, text, base_x, base_y, style, n)[j];
                &&& base_x <= ev.x < base_x + n * atlas.cell_width
                &&& base_y <= ev.y < base_y + atlas.cell_height
            },
    decreases n,
{
    if n > 0 {
        let cw = atlas.cell_width as int;
        let ch = atlas.cell_height as int;
        lemma_text_events_extent(atlas, text, base_x, base_y, style, n - 1);
        vstd::arithmetic::mul::lemma_mul_nonnegative(n - 1, cw);
        vstd::arithmetic::mul::lemma_mul_is_distributive_add_other_way(cw, n - 1, 1);
        vstd::arithmetic::mul::lemma_mul_inequality(n, text.len() as int, cw);
        let cell_base = base_x + (n - 1) * cw;
        lemma_cell_events_extent(
            atlas,
            glyph_index_of(text[n - 1]),
            cell_base,
            base_y,
            style,
            cw * ch,
        );
        vstd::arithmetic::mul::lemma_mul_is_distributive_add_other_way(cw * ch, n - 1, 1);
        vstd::arithmetic::mul::lemma_mul_nonnegative(n - 1, cw * ch);
    }
}

/// Rendering a text of length `n` sweeps the cursor over exactly `n` cells
/// of `cell_width` pixels: the stream holds at most `n * cell_width *
/// cell_height` events, and every event lies in the swept window, from the
/// effective origin to the cursor's final position `n * cell_width` pixels
/// further right.
pub proof fn lemma_render_extent<C>(
    atlas: GlyphAtlas,
    text: Seq<char>,
    origin_x: int,
    origin_y: int,
    style: TextStyle<C>,
)
    requires
        atlas.wf(),
        i64::MIN <= origin_x + style.offset_x,
        origin_x + style.offset_x + text.len() * atlas.cell_width <= i64::MAX,
        i64::MIN <= origin_y + style.offset_y,
        origin_y + style.offset_y + atlas.cell_height <= i64::MAX,
    ensures
        render_events(atlas, text, origin_x, origin_y, style).len() <= text.len() * (
        atlas.cell_width * atlas.cell_height),
        forall|j: int|
            0 <= j < render_events(atlas, text, origin_x, origin_y, style).len() ==> {
                let ev = #[trigger] render_events(atlas, text, origin_x, origin_y, style)[j];
                &&& origin_x + style.offset_x <= ev.x < origin_x + style.offset_x + text.len()
                    * atlas.cell_width
                &&& origin_y + style.offset_y <= ev.y < origin_y + style.offset_y
                    + atlas.cell_height
            },
{
    lemma_text_events_extent(
        atlas,
        text,
        origin_x + style.offset_x,
        origin_y + style.offset_y,
        style,
        text.len() as int,
    );
}

proof fn lemma_text_events_append<C>(
    atlas: GlyphAtlas,
    t1: Seq<char>,
    t2: Seq<char>,
    base_x: int,
    base_y: int,
    style: TextStyle<C>,
    n: int,
)
    requires
        0 <= n <= t2.len(),
    ensures
        text_events_upto(atlas, t1 + t2, base_x, base_y, style, t1.len() + n)
            == text_events_upto(atlas, t1, base_x, base_y, style, t1.len() as int)
            + text_events_upto(
            atlas,
            t2,
            base_x + t1.len() * atlas.cell_width,
            base_y,
            style,
            n,
        ),
    decreases n,
{
    let cw = atlas.cell_width as int;
    if n == 0 {
        assert forall|j: int| 0 <= j < t1.len() implies glyph_index_of((t1 + t2)[j])
            == glyph_index_of(t1[j]) by {
            assert((t1 + t2)[j] == t1[j]);
        }
        lemma_text_events_agree(atlas, t1 + t2, t1, base_x, base_y, style, t1.len() as int);
        assert(text_events_upto(atlas, t1 + t2, base_x, base_y, style, t1.len() as int)
            =~= text_events_upto(atlas, t1, base_x, base_y, style, t1.len() as int)
            + text_events_upto(atlas, t2, base_x + t1.len() * cw, base_y, style, 0));
    } else {
        lemma_text_events_append(atlas, t1, t2, base_x, base_y, style, n - 1);
        assert((t1 + t2)[t1.len() + n - 1] == t2[n - 1]);
        vstd::arithmetic::mul::lemma_mul_is_distributive_add_other_way(
            cw,
            t1.len() as int,
            n - 1,
        );
        assert((t1.len() + n - 1) * cw == t1.len() * cw + (n - 1) * cw);
        let tail = glyph_events(
            atlas,
            glyph_index_of(t2[n - 1]),
            base_x + t1.len() * cw + (n - 1) * cw,
            base_y,
            style,
        );
        assert(text_events_upto(atlas, t1 + t2, base_x, base_y, style, t1.len() + n)
            == text_events_upto(atlas, t1 + t2, base_x, base_y, style, t1.len() + n - 1) + tail);
        assert(text_events_upto(atlas, t2, base_x + t1.len() * cw, base_y, style, n)
            == text_events_upto(atlas, t2, base_x + t1.len() * cw, base_y, style, n - 1) + tail);
        assert(text_events_upto(atlas, t1 + t2, base_x, base_y, style, t1.len() + n)
            =~= text_events_upto(atlas, t1, base_x, base_y, style, t1.len() as int)
            + text_events_upto(atlas, t2, base_x + t1.len() * cw, base_y, style, n));
    }
}

/// Rendering a concatenation equals rendering the first text and then the
/// second with the origin advanced by the first text's width in cells:
/// adjacent render calls compose seamlessly, which is what lets the two
/// halves of a wide-glyph pair form one wide symbol.
pub proof fn lemma_render_append<C>(
    atlas: GlyphAtlas,
    t1: Seq<char>,
    t2: Seq<char>,
    origin_x: int,
    origin_y: int,
    style: TextStyle<C>,
)
    ensures
        render_events(atlas, t1 + t2, origin_x, origin_y, style) == render_events(
            atlas,
            t1,
            origin_x,
            origin_y,
            style,
        ) + render_events(
            atlas,
            t2,
            origin_x + t1.len() * atlas.cell_width,
            origin_y,
            style,
        ),
{
    lemma_text_events_append(
        atlas,
        t1,
        t2,
        origin_x + style.offset_x,
        origin_y + style.offset_y,
        style,
        t2.len() as int,
    );
}

} // verus!
