use vstd::prelude::*;

use crate::builtin_text::{effective_scale, fixed_text_size, fixed_text_size_u32, widen_rows};
use crate::font5x7::{font_glyph, glyph_for, FONT_GLYPH_HEIGHT, FONT_GLYPH_SPACING, FONT_GLYPH_WIDTH};
use crate::framebuffer::{lemma_painted_identity, lemma_painted_union, painted, Framebuffer};
use crate::glyph::{draw_glyph_cells, glyph_covers};
use crate::pixel::Pixel;

verus! {

/// The built-in bitmap fonts text can be drawn with. Only the 5x7 face is built in: a
/// smaller 3x5 face would need a glyph table for every base character, and metrics,
/// that this library does not define, so it is left out rather than drawn from an
/// invented table.
#[derive(Debug, Clone, Copy, PartialEq, Eq, Structural)]
pub enum Font {
    /// Glyphs five pixels wide and seven high, one pixel apart.
    Pixel5x7,
}

impl Default for Font {
    fn default() -> (font: Self)
        ensures
            font == Font::Pixel5x7,
    {
        Font::Pixel5x7
    }
}

/// The accented capitals that the managed glyphs also give their lower-case forms.
pub open spec fn managed_key(character: char) -> char {
    match character {
        'à' => 'À',
        'â' => 'Â',
        'ç' => 'Ç',
        'è' => 'È',
        'é' => 'É',
        'ê' => 'Ê',
        'ù' => 'Ù',
        'û' => 'Û',
        'ü' => 'Ü',
        other => other,
    }
}

/// The rows of the glyphs that text drawing adds to the built-in 5x7 font:
/// punctuation and French accented capitals (lower-case accented letters share them).
pub open spec fn managed_glyph_rows(character: char) -> Option<Seq<u8>> {
    match managed_key(character) {
        '%' => Some(seq![0b11001u8, 0b11010u8, 0b00100u8, 0b01011u8, 0b10011u8, 0b00000u8, 0b00000u8]),
        '*' => Some(seq![0b00000u8, 0b10101u8, 0b01110u8, 0b11111u8, 0b01110u8, 0b10101u8, 0b00000u8]),
        '\'' => Some(seq![0b00100u8, 0b00100u8, 0b00010u8, 0b00000u8, 0b00000u8, 0b00000u8, 0b00000u8]),
        'À' => Some(seq![0b01000u8, 0b01110u8, 0b10001u8, 0b11111u8, 0b10001u8, 0b10001u8, 0b10001u8]),
        'Â' => Some(seq![0b01010u8, 0b01110u8, 0b10001u8, 0b11111u8, 0b10001u8, 0b10001u8, 0b10001u8]),
        'Ç' => Some(seq![0b01111u8, 0b10000u8, 0b10000u8, 0b10000u8, 0b10000u8, 0b01111u8, 0b00100u8]),
        'È' => Some(seq![0b01000u8, 0b11111u8, 0b10000u8, 0b11110u8, 0b10000u8, 0b10000u8, 0b11111u8]),
        'É' => Some(seq![0b00100u8, 0b11111u8, 0b10000u8, 0b11110u8, 0b10000u8, 0b10000u8, 0b11111u8]),
        'Ê' => Some(seq![0b01010u8, 0b11111u8, 0b10000u8, 0b11110u8, 0b10000u8, 0b10000u8, 0b11111u8]),
        'Ù' => Some(seq![0b01000u8, 0b10001u8, 0b10001u8, 0b10001u8, 0b10001u8, 0b10001u8, 0b01110u8]),
        'Û' => Some(seq![0b01010u8, 0b10001u8, 0b10001u8, 0b10001u8, 0b10001u8, 0b10001u8, 0b01110u8]),
        'Ü' => Some(seq![0b10001u8, 0b00000u8, 0b10001u8, 0b10001u8, 0b10001u8, 0b10001u8, 0b01110u8]),
        _ => None,
    }
}

/// The letter an accented Latin character is drawn as when no glyph of its own
/// exists; other characters become ASCII upper case.
pub open spec fn latin_base(character: char) -> char {
    match character {
        'à' | 'á' | 'â' | 'ä' | 'ã' | 'å' | 'À' | 'Á' | 'Â' | 'Ä' | 'Ã' | 'Å' => 'A',
        'ç' | 'Ç' => 'C',
        'è' | 'é' | 'ê' | 'ë' | 'È' | 'É' | 'Ê' | 'Ë' => 'E',
        'ì' | 'í' | 'î' | 'ï' | 'Ì' | 'Í' | 'Î' | 'Ï' => 'I',
        'ñ' | 'Ñ' => 'N',
        'ò' | 'ó' | 'ô' | 'ö' | 'õ' | 'Ò' | 'Ó' | 'Ô' | 'Ö' | 'Õ' => 'O',
        'ù' | 'ú' | 'û' | 'ü' | 'Ù' | 'Ú' | 'Û' | 'Ü' => 'U',
        'ý' | 'ÿ' | 'Ý' | 'Ÿ' => 'Y',
        _ => if 'a' <= character && character <= 'z' {
            ((character as u8) - 32) as char
        } else {
            character
        },
    }
}

/// The rows a character of managed text is drawn with: its managed glyph, else the
/// built-in glyph of its base letter.
pub open spec fn text_glyph_rows(character: char) -> Seq<u8> {
    match managed_glyph_rows(character) {
        Some(rows) => rows,
        None => font_glyph(latin_base(character)),
    }
}

/// Horizontal distance between consecutive characters: the width that a second
/// glyph adds to the text, at most `i32::MAX`.
pub open spec fn text_advance(scale: int) -> int {
    let added = fixed_text_size(2, scale, 5, 7, 1).0 - fixed_text_size(1, scale, 5, 7, 1).0;
    if added > i32::MAX {
        i32::MAX as int
    } else {
        added
    }
}

/// Left edge of the `k`-th character: each advance saturates at `i32::MAX`.
pub open spec fn text_cursor(x: int, advance: int, k: int) -> int {
    if x + k * advance > i32::MAX {
        i32::MAX as int
    } else {
        x + k * advance
    }
}

/// `(px, py)` is painted by character `k` of managed text drawn at `(x, y)`.
pub open spec fn text_char_covers(px: int, py: int, x: int, y: int, chars: Seq<char>, scale: int, k: int) -> bool {
    glyph_covers(
        px,
        py,
        text_cursor(x, text_advance(scale), k),
        y,
        widen_rows(text_glyph_rows(chars[k])),
        5,
        effective_scale(scale),
    )
}

/// `(px, py)` is painted by one of the first `n` characters of managed text.
pub open spec fn text_covers_upto(px: int, py: int, x: int, y: int, chars: Seq<char>, scale: int, n: int) -> bool {
    exists|k: int| 0 <= k < n && #[trigger] text_char_covers(px, py, x, y, chars, scale, k)
}

fn managed_glyph(character: char) -> (rows: Option<[u8; 7]>)
    ensures
        match managed_glyph_rows(character) {
            Some(expected) => rows matches Some(found) && found@ == expected,
            None => rows is None,
        },
{
    let key = match character {
        'à' => 'À',
        'â' => 'Â',
        'ç' => 'Ç',
        'è' => 'È',
        'é' => 'É',
        'ê' => 'Ê',
        'ù' => 'Ù',
        'û' => 'Û',
        'ü' => 'Ü',
        other => other,
    };
    let rows: Option<[u8; 7]> = match key {
        '%' => Some([0b11001u8, 0b11010u8, 0b00100u8, 0b01011u8, 0b10011u8, 0b00000u8, 0b00000u8]),
        '*' => Some([0b00000u8, 0b10101u8, 0b01110u8, 0b11111u8, 0b01110u8, 0b10101u8, 0b00000u8]),
        '\'' => Some([0b00100u8, 0b00100u8, 0b00010u8, 0b00000u8, 0b00000u8, 0b00000u8, 0b00000u8]),
        'À' => Some([0b01000u8, 0b01110u8, 0b10001u8, 0b11111u8, 0b10001u8, 0b10001u8, 0b10001u8]),
        'Â' => Some([0b01010u8, 0b01110u8, 0b10001u8, 0b11111u8, 0b10001u8, 0b10001u8, 0b10001u8]),
        'Ç' => Some([0b01111u8, 0b10000u8, 0b10000u8, 0b10000u8, 0b10000u8, 0b01111u8, 0b00100u8]),
        'È' => Some([0b01000u8, 0b11111u8, 0b10000u8, 0b11110u8, 0b10000u8, 0b10000u8, 0b11111u8]),
        'É' => Some([0b00100u8, 0b11111u8, 0b10000u8, 0b11110u8, 0b10000u8, 0b10000u8, 0b11111u8]),
        'Ê' => Some([0b01010u8, 0b11111u8, 0b10000u8, 0b11110u8, 0b10000u8, 0b10000u8, 0b11111u8]),
        'Ù' => Some([0b01000u8, 0b10001u8, 0b10001u8, 0b10001u8, 0b10001u8, 0b10001u8, 0b01110u8]),
        'Û' => Some([0b01010u8, 0b10001u8, 0b10001u8, 0b10001u8, 0b10001u8, 0b10001u8, 0b01110u8]),
        'Ü' => Some([0b10001u8, 0b00000u8, 0b10001u8, 0b10001u8, 0b10001u8, 0b10001u8, 0b01110u8]),
        _ => None,
    };
    proof {
        if let Some(found) = rows {
            assert(found@ =~= managed_glyph_rows(character)->0);
        }
    }
    rows
}

fn normalize_latin_character(character: char) -> (base: char)
    ensures
        base == latin_base(character),
{
    match character {
        'à' | 'á' | 'â' | 'ä' | 'ã' | 'å' | 'À' | 'Á' | 'Â' | 'Ä' | 'Ã' | 'Å' => 'A',
        'ç' | 'Ç' => 'C',
        'è' | 'é' | 'ê' | 'ë' | 'È' | 'É' | 'Ê' | 'Ë' => 'E',
        'ì' | 'í' | 'î' | 'ï' | 'Ì' | 'Í' | 'Î' | 'Ï' => 'I',
        'ñ' | 'Ñ' => 'N',
        'ò' | 'ó' | 'ô' | 'ö' | 'õ' | 'Ò' | 'Ó' | 'Ô' | 'Ö' | 'Õ' => 'O',
        'ù' | 'ú' | 'û' | 'ü' | 'Ù' | 'Ú' | 'Û' | 'Ü' => 'U',
        'ý' | 'ÿ' | 'Ý' | 'Ÿ' => 'Y',
        _ => if 'a' <= character && character <= 'z' {
            ((character as u8) - 32) as char
        } else {
            character
        },
    }
}

fn text_glyph(character: char) -> (rows: [u16; 7])
    ensures
        rows@ == widen_rows(text_glyph_rows(character)),
{
    let glyph = match managed_glyph(character) {
        Some(rows) => rows,
        None => glyph_for(normalize_latin_character(character)),
    };
    let rows = [
        glyph[0] as u16,
        glyph[1] as u16,
        glyph[2] as u16,
        glyph[3] as u16,
        glyph[4] as u16,
        glyph[5] as u16,
        glyph[6] as u16,
    ];
    assert(rows@ =~= widen_rows(text_glyph_rows(character)));
    rows
}

fn glyph_advance(scale: u32) -> (advance: i32)
    ensures
        advance == text_advance(scale as int),
        advance >= 0,
{
    let single = fixed_text_size_u32(1, scale, FONT_GLYPH_WIDTH, FONT_GLYPH_HEIGHT, FONT_GLYPH_SPACING);
    let pair = fixed_text_size_u32(2, scale, FONT_GLYPH_WIDTH, FONT_GLYPH_HEIGHT, FONT_GLYPH_SPACING);
    let added = pair.0.saturating_sub(single.0);
    proof {
        assert(pair.0 >= single.0) by (nonlinear_arith)
            requires
                single.0 == fixed_text_size(1, scale as int, 5, 7, 1).0,
                pair.0 == fixed_text_size(2, scale as int, 5, 7, 1).0,
        {
        }
    }
    if added > i32::MAX as u32 {
        i32::MAX
    } else {
        added as i32
    }
}

/// Draws text with the built-in bitmap fonts, with extra glyphs for punctuation and
/// French accented capitals, and accented letters without a glyph drawn as their
/// base letter; every character keeps the font's fixed advance.
#[derive(Debug, Clone, Copy, PartialEq, Eq, Structural)]
pub struct TextRenderer {
    font: Font,
}

impl Default for TextRenderer {
    fn default() -> (renderer: Self)
        ensures
            renderer.font_spec() == Font::Pixel5x7,
    {
        TextRenderer::new(Font::Pixel5x7)
    }
}

impl TextRenderer {
    pub closed spec fn font_spec(self) -> Font {
        self.font
    }

    pub fn new(font: Font) -> (renderer: Self)
        ensures
            renderer.font_spec() == font,
    {
        TextRenderer { font }
    }

    pub fn font(self) -> (font: Font)
        ensures
            font == self.font_spec(),
    {
        self.font
    }

    /// Draws `text` at scale one.
    pub fn draw(self, framebuffer: &mut Framebuffer, x: i32, y: i32, text: &str, pixel: Pixel)
        ensures
            painted(
                old(framebuffer)@,
                final(framebuffer)@,
                |px: int, py: int| text_covers_upto(px, py, x as int, y as int, text@, 1, text@.len() as int),
                pixel,
            ),
    {
        self.draw_scaled(framebuffer, x, y, text, 1, pixel);
    }

    /// Draws `text` with each glyph pixel a `scale` x `scale` block (zero counts as
    /// one); character `k` starts `k` advances right of `x`, the cursor saturating at
    /// `i32::MAX`.
    pub fn draw_scaled(self, framebuffer: &mut Framebuffer, x: i32, y: i32, text: &str, scale: u32, pixel: Pixel)
        ensures
            painted(
                old(framebuffer)@,
                final(framebuffer)@,
                |px: int, py: int| text_covers_upto(px, py, x as int, y as int, text@, scale as int, text@.len() as int),
                pixel,
            ),
    {
        let ghost base = framebuffer@;
        let ghost chars = text@;
        let s = if scale < 1 { 1 } else { scale };
        let advance = glyph_advance(s);
        assert(text_advance(s as int) == text_advance(scale as int));
        assert(effective_scale(s as int) == effective_scale(scale as int));
        let mut cursor_x: i32 = x;
        proof {
            lemma_painted_identity(
                base,
                |px: int, py: int| text_covers_upto(px, py, x as int, y as int, chars, scale as int, 0),
                pixel,
            );
        }
        for character in it: text.chars()
            invariant
                it.seq() == chars,
                s == effective_scale(scale as int),
                advance == text_advance(scale as int),
                advance >= 0,
                cursor_x == text_cursor(x as int, advance as int, it.index() as int),
                painted(
                    base,
                    framebuffer@,
                    |px: int, py: int| text_covers_upto(px, py, x as int, y as int, chars, scale as int, it.index() as int),
                    pixel,
                ),
        {
            let ghost k = it.index() as int;
            assert(character == chars[k]);
            let rows = text_glyph(character);
            let ghost before = framebuffer@;
            draw_glyph_cells(framebuffer, cursor_x as i128, y as i128, &rows, FONT_GLYPH_WIDTH, s, pixel);
            proof {
                assert forall|px: int, py: int| base.in_bounds(px, py) implies (text_covers_upto(
                    px,
                    py,
                    x as int,
                    y as int,
                    chars,
                    scale as int,
                    k + 1,
                ) == (text_covers_upto(px, py, x as int, y as int, chars, scale as int, k)
                    || glyph_covers(px, py, cursor_x as int, y as int, rows@, 5, s as int))) by {
                    assert(text_char_covers(px, py, x as int, y as int, chars, scale as int, k) == glyph_covers(
                        px,
                        py,
                        cursor_x as int,
                        y as int,
                        rows@,
                        5,
                        s as int,
                    ));
                }
                lemma_painted_union(
                    base,
                    before,
                    framebuffer@,
                    |px: int, py: int| text_covers_upto(px, py, x as int, y as int, chars, scale as int, k),
                    |px: int, py: int| glyph_covers(px, py, cursor_x as int, y as int, rows@, 5, s as int),
                    |px: int, py: int| text_covers_upto(px, py, x as int, y as int, chars, scale as int, k + 1),
                    pixel,
                );
            }
            cursor_x = if cursor_x as i64 + advance as i64 > i32::MAX as i64 {
                i32::MAX
            } else {
                cursor_x + advance
            };
            proof {
                assert((k + 1) * advance == k * advance + advance) by (nonlinear_arith);
                assert(cursor_x == text_cursor(x as int, advance as int, k + 1));
            }
        }
    }

    /// Width and height of `text` in the renderer's font at `scale`: the built-in
    /// font's fixed-width metrics.
    pub fn text_size(self, text: &str, scale: u32) -> (size: (u32, u32))
        ensures
            size.0 == fixed_text_size(text@.len() as int, scale as int, 5, 7, 1).0,
            size.1 == fixed_text_size(text@.len() as int, scale as int, 5, 7, 1).1,
    {
        Framebuffer::text_size(text, scale)
    }
}

} // verus!
