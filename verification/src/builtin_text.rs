use vstd::prelude::*;

use crate::font5x7::{font_glyph, glyph_for, FONT_GLYPH_HEIGHT, FONT_GLYPH_SPACING, FONT_GLYPH_WIDTH};
use crate::framebuffer::{
    lemma_painted_identity, lemma_painted_same_region, lemma_painted_union, painted, Framebuffer,
};
use crate::glyph::{draw_glyph_cells, glyph_covers, glyph_cell};
use crate::pixel::Pixel;

verus! {

pub open spec fn sat_u32(v: int) -> int {
    if v > u32::MAX {
        u32::MAX as int
    } else {
        v
    }
}

/// A zero scale draws at scale one.
pub open spec fn effective_scale(scale: int) -> int {
    if scale < 1 {
        1
    } else {
        scale
    }
}

pub fn saturating_mul_u32(a: u32, b: u32) -> (product: u32)
    ensures
        product == sat_u32(a * b),
{
    match a.checked_mul(b) {
        Some(product) => product,
        None => u32::MAX,
    }
}

/// Width and height of `count` fixed-width glyphs with the given metrics and scale,
/// every intermediate result saturating at `u32::MAX`.
pub open spec fn fixed_text_size(
    count: int,
    scale: int,
    glyph_width: int,
    glyph_height: int,
    spacing: int,
) -> (int, int) {
    let s = effective_scale(scale);
    let n = sat_u32(count);
    if n == 0 {
        (0, 0)
    } else {
        (
            sat_u32(sat_u32(sat_u32(glyph_width * s) * n) + sat_u32(sat_u32(spacing * s) * (n - 1))),
            sat_u32(glyph_height * s),
        )
    }
}

/// Size of `count` fixed-width glyphs, computed with saturating arithmetic.
pub fn fixed_text_size_u32(count: usize, scale: u32, glyph_width: u32, glyph_height: u32, spacing: u32) -> (size: (
    u32,
    u32,
))
    ensures
        size.0 == fixed_text_size(count as int, scale as int, glyph_width as int, glyph_height as int, spacing as int).0,
        size.1 == fixed_text_size(count as int, scale as int, glyph_width as int, glyph_height as int, spacing as int).1,
{
    let scale = if scale < 1 { 1 } else { scale };
    let count: u32 = if count > u32::MAX as usize { u32::MAX } else { count as u32 };
    if count == 0 {
        return (0, 0);
    }
    let width = saturating_mul_u32(glyph_width, scale);
    let height = saturating_mul_u32(glyph_height, scale);
    let gap = saturating_mul_u32(spacing, scale);
    let text_width = saturating_mul_u32(width, count).saturating_add(saturating_mul_u32(gap, count - 1));
    (text_width, height)
}

pub open spec fn widen_rows(rows: Seq<u8>) -> Seq<u16> {
    rows.map_values(|v: u8| v as u16)
}

/// Horizontal distance between the origins of consecutive built-in glyphs.
pub open spec fn builtin_advance(scale: int) -> int {
    sat_u32((FONT_GLYPH_WIDTH + FONT_GLYPH_SPACING) * effective_scale(scale))
}

/// `(px, py)` is painted by the `i`-th character of a built-in-font string at `(x, y)`.
pub open spec fn builtin_char_covers(
    px: int,
    py: int,
    x: int,
    y: int,
    chars: Seq<char>,
    scale: int,
    i: int,
) -> bool {
    glyph_covers(
        px,
        py,
        x + i * builtin_advance(scale),
        y,
        widen_rows(font_glyph(chars[i])),
        FONT_GLYPH_WIDTH as int,
        effective_scale(scale),
    )
}

/// `(px, py)` is painted by one of the first `n` characters of the string.
pub open spec fn builtin_text_covers_upto(
    px: int,
    py: int,
    x: int,
    y: int,
    chars: Seq<char>,
    scale: int,
    n: int,
) -> bool {
    exists|i: int| 0 <= i < n && #[trigger] builtin_char_covers(px, py, x, y, chars, scale, i)
}

/// `(px, py)` is painted when the string is drawn with the built-in font at `(x, y)`.
pub open spec fn builtin_text_covers(px: int, py: int, x: int, y: int, chars: Seq<char>, scale: int) -> bool {
    builtin_text_covers_upto(px, py, x, y, chars, scale, chars.len() as int)
}

fn widen_glyph(glyph: [u8; 7]) -> (rows: [u16; 7])
    ensures
        rows@ == widen_rows(glyph@),
{
    let rows = [
        glyph[0] as u16,
        glyph[1] as u16,
        glyph[2] as u16,
        glyph[3] as u16,
        glyph[4] as u16,
        glyph[5] as u16,
        glyph[6] as u16,
    ];
    assert(rows@ =~= widen_rows(glyph@));
    rows
}

impl Framebuffer {
    /// Draws `text` with the built-in 5x7 font at scale one.
    pub fn draw_text(&mut self, x: i32, y: i32, text: &str, pixel: Pixel)
        ensures
            painted(
                old(self)@,
                final(self)@,
                |px: int, py: int| builtin_text_covers(px, py, x as int, y as int, text@, 1),
                pixel,
            ),
    {
        self.draw_text_scaled(x, y, text, 1, pixel);
    }

    /// Draws `text` with the built-in 5x7 font; each glyph pixel becomes a `scale` x `scale`
    /// block (a zero scale draws at scale one), clipped to the framebuffer.
    pub fn draw_text_scaled(&mut self, x: i32, y: i32, text: &str, scale: u32, pixel: Pixel)
        ensures
            painted(
                old(self)@,
                final(self)@,
                |px: int, py: int| builtin_text_covers(px, py, x as int, y as int, text@, scale as int),
                pixel,
            ),
    {
        let ghost base = self@;
        let ghost chars = text@;
        let count = text.unicode_len();
        let s = if scale < 1 { 1 } else { scale };
        let advance = saturating_mul_u32(FONT_GLYPH_WIDTH + FONT_GLYPH_SPACING, s);
        let mut cursor_x = x as i128;
        proof {
            lemma_painted_identity(
                base,
                |px: int, py: int| builtin_text_covers_upto(px, py, x as int, y as int, chars, scale as int, 0),
                pixel,
            );
        }
        for character in it: text.chars()
            invariant
                count == chars.len(),
                it.seq() == chars,
                s == effective_scale(scale as int),
                advance == builtin_advance(scale as int),
                cursor_x == x + it.index() * advance,
                painted(
                    base,
                    self@,
                    |px: int, py: int|
                        builtin_text_covers_upto(px, py, x as int, y as int, chars, scale as int, it.index()),
                    pixel,
                ),
        {
            let ghost i = it.index();
            assert(character == chars[i]);
            proof {
                assert(i * advance <= 0xffff_ffff_ffff_ffff * 0xffff_ffff) by (nonlinear_arith)
                    requires
                        0 <= i < 0xffff_ffff_ffff_ffff,
                        0 <= advance <= 0xffff_ffff,
                ;
            }
            let rows = widen_glyph(glyph_for(character));
            let ghost before = self@;
            draw_glyph_cells(self, cursor_x, y as i128, &rows, FONT_GLYPH_WIDTH, s, pixel);
            proof {
                assert forall|px: int, py: int| base.in_bounds(px, py) implies (builtin_text_covers_upto(
                    px,
                    py,
                    x as int,
                    y as int,
                    chars,
                    scale as int,
                    i + 1,
                ) == (builtin_text_covers_upto(px, py, x as int, y as int, chars, scale as int, i)
                    || glyph_covers(
                    px,
                    py,
                    cursor_x as int,
                    y as int,
                    rows@,
                    FONT_GLYPH_WIDTH as int,
                    s as int,
                ))) by {
                    assert(builtin_char_covers(px, py, x as int, y as int, chars, scale as int, i)
                        == glyph_covers(
                        px,
                        py,
                        cursor_x as int,
                        y as int,
                        rows@,
                        FONT_GLYPH_WIDTH as int,
                        s as int,
                    ));
                }
                lemma_painted_union(
                    base,
                    before,
                    self@,
                    |px: int, py: int|
                        builtin_text_covers_upto(px, py, x as int, y as int, chars, scale as int, i),
                    |px: int, py: int|
                        glyph_covers(
                            px,
                            py,
                            cursor_x as int,
                            y as int,
                            rows@,
                            FONT_GLYPH_WIDTH as int,
                            s as int,
                        ),
                    |px: int, py: int|
                        builtin_text_covers_upto(px, py, x as int, y as int, chars, scale as int, i + 1),
                    pixel,
                );
            }
            cursor_x = cursor_x + advance as i128;
            assert((i + 1) * advance == i * advance + advance) by (nonlinear_arith);
        }
    }

    /// Width and height of `text` in the built-in font at `scale` (zero counts as one).
    pub fn text_size(text: &str, scale: u32) -> (size: (u32, u32))
        ensures
            size.0 == fixed_text_size(text@.len() as int, scale as int, 5, 7, 1).0,
            size.1 == fixed_text_size(text@.len() as int, scale as int, 5, 7, 1).1,
    {
        fixed_text_size_u32(
            text.unicode_len(),
            scale,
            FONT_GLYPH_WIDTH,
            FONT_GLYPH_HEIGHT,
            FONT_GLYPH_SPACING,
        )
    }
}

} // verus!
