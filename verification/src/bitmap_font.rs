use vstd::prelude::*;

use crate::builtin_text::{effective_scale, fixed_text_size, fixed_text_size_u32, sat_u32, saturating_mul_u32};
use crate::framebuffer::{lemma_painted_identity, lemma_painted_union, painted, Framebuffer};
use crate::glyph::{draw_glyph_cells, glyph_covers};
use crate::pixel::Pixel;

verus! {

/// One glyph in a user-defined bitmap font.
///
/// Each row stores the left-to-right pixels in the low `width` bits of a `u16`.
/// A set bit draws one pixel; an unset bit stays transparent.
#[derive(Debug, Clone, Copy, PartialEq, Eq)]
pub struct BitmapGlyph {
    character: char,
    rows: &'static [u16],
}

impl BitmapGlyph {
    pub closed spec fn spec_character(self) -> char {
        self.character
    }

    pub closed spec fn spec_rows(self) -> Seq<u16> {
        self.rows@
    }

    pub fn new(character: char, rows: &'static [u16]) -> (glyph: Self)
        ensures
            glyph.spec_character() == character,
            glyph.spec_rows() == rows@,
    {
        BitmapGlyph { character, rows }
    }

    pub fn character(self) -> (character: char)
        ensures
            character == self.spec_character(),
    {
        self.character
    }

    pub fn rows(self) -> (rows: &'static [u16])
        ensures
            rows@ == self.spec_rows(),
    {
        self.rows
    }
}

/// Immutable descriptor for a small fixed-width bitmap font authored by a game.
///
/// GPE owns the renderer and metrics while the game owns the actual glyph data.
/// This keeps game-specific visual identity out of the engine without forcing the
/// game to reimplement text layout or framebuffer rasterization.
#[derive(Debug, Clone, Copy, PartialEq, Eq)]
pub struct BitmapFont {
    name: &'static str,
    glyph_width: u32,
    glyph_height: u32,
    glyph_spacing: u32,
    glyphs: &'static [BitmapGlyph],
    fallback: char,
}

/// The index of the first of the first `n` glyphs that draws `character`.
pub open spec fn first_match(glyphs: Seq<BitmapGlyph>, character: char, n: nat) -> Option<int>
    decreases n,
{
    if n == 0 {
        None
    } else {
        match first_match(glyphs, character, (n - 1) as nat) {
            Some(i) => Some(i),
            None => if glyphs[n - 1].spec_character() == character {
                Some(n - 1)
            } else {
                None
            },
        }
    }
}

proof fn lemma_first_match_extends(glyphs: Seq<BitmapGlyph>, character: char, n: nat, m: nat)
    requires
        n <= m,
        first_match(glyphs, character, n) is Some,
    ensures
        first_match(glyphs, character, m) == first_match(glyphs, character, n),
    decreases m - n,
{
    if n < m {
        lemma_first_match_extends(glyphs, character, n, (m - 1) as nat);
    }
}

proof fn lemma_first_match_bounds(glyphs: Seq<BitmapGlyph>, character: char, n: nat)
    ensures
        first_match(glyphs, character, n) matches Some(i) ==> 0 <= i < n && glyphs[i].spec_character()
            == character,
    decreases n,
{
    if n > 0 {
        lemma_first_match_bounds(glyphs, character, (n - 1) as nat);
    }
}

/// The glyph a font draws for `character`: the first glyph for it, else the first glyph
/// for the font's fallback character, else none.
pub open spec fn font_lookup(font: BitmapFont, character: char) -> Option<BitmapGlyph> {
    let glyphs = font.spec_glyphs();
    match first_match(glyphs, character, glyphs.len()) {
        Some(i) => Some(glyphs[i]),
        None => match first_match(glyphs, font.spec_fallback(), glyphs.len()) {
            Some(i) => Some(glyphs[i]),
            None => None,
        },
    }
}

fn find_glyph(glyphs: &[BitmapGlyph], character: char) -> (index: Option<usize>)
    ensures
        match first_match(glyphs@, character, glyphs@.len()) {
            Some(i) => index == Some(i as usize),
            None => index is None,
        },
{
    let mut i: usize = 0;
    while i < glyphs.len()
        invariant
            i <= glyphs@.len(),
            first_match(glyphs@, character, i as nat) is None,
        decreases glyphs@.len() - i,
    {
        if glyphs[i].character == character {
            proof {
                assert(first_match(glyphs@, character, (i + 1) as nat) == Some(i as int));
                lemma_first_match_extends(glyphs@, character, (i + 1) as nat, glyphs@.len());
            }
            return Some(i);
        }
        i = i + 1;
    }
    None
}

impl BitmapFont {
    pub closed spec fn spec_name(self) -> Seq<char> {
        self.name@
    }

    pub closed spec fn spec_glyph_width(self) -> u32 {
        self.glyph_width
    }

    pub closed spec fn spec_glyph_height(self) -> u32 {
        self.glyph_height
    }

    pub closed spec fn spec_glyph_spacing(self) -> u32 {
        self.glyph_spacing
    }

    pub closed spec fn spec_glyphs(self) -> Seq<BitmapGlyph> {
        self.glyphs@
    }

    pub closed spec fn spec_fallback(self) -> char {
        self.fallback
    }

    pub fn new(
        name: &'static str,
        glyph_width: u32,
        glyph_height: u32,
        glyph_spacing: u32,
        glyphs: &'static [BitmapGlyph],
        fallback: char,
    ) -> (font: Self)
        ensures
            font.spec_name() == name@,
            font.spec_glyph_width() == glyph_width,
            font.spec_glyph_height() == glyph_height,
            font.spec_glyph_spacing() == glyph_spacing,
            font.spec_glyphs() == glyphs@,
            font.spec_fallback() == fallback,
    {
        BitmapFont { name, glyph_width, glyph_height, glyph_spacing, glyphs, fallback }
    }

    pub fn name(self) -> (name: &'static str)
        ensures
            name@ == self.spec_name(),
    {
        self.name
    }

    pub fn glyph_width(self) -> (width: u32)
        ensures
            width == self.spec_glyph_width(),
    {
        self.glyph_width
    }

    pub fn glyph_height(self) -> (height: u32)
        ensures
            height == self.spec_glyph_height(),
    {
        self.glyph_height
    }

    pub fn glyph_spacing(self) -> (spacing: u32)
        ensures
            spacing == self.spec_glyph_spacing(),
    {
        self.glyph_spacing
    }

    pub fn fallback(self) -> (fallback: char)
        ensures
            fallback == self.spec_fallback(),
    {
        self.fallback
    }

    /// The glyph drawn for `character`, falling back to the font's fallback glyph.
    pub fn glyph(self, character: char) -> (glyph: Option<BitmapGlyph>)
        ensures
            glyph == font_lookup(self, character),
    {
        proof {
            lemma_first_match_bounds(self.glyphs@, character, self.glyphs@.len());
            lemma_first_match_bounds(self.glyphs@, self.fallback, self.glyphs@.len());
        }
        match find_glyph(self.glyphs, character) {
            Some(i) => Some(self.glyphs[i]),
            None => match find_glyph(self.glyphs, self.fallback) {
                Some(i) => Some(self.glyphs[i]),
                None => None,
            },
        }
    }
}

/// Horizontal distance between consecutive glyph origins, saturating at `u32::MAX`.
pub open spec fn bitmap_advance(font: BitmapFont, scale: int) -> int {
    sat_u32(sat_u32(font.spec_glyph_width() + font.spec_glyph_spacing()) * effective_scale(scale))
}

/// The rows of a glyph that a font draws: at most `glyph_height` of them.
pub open spec fn drawn_rows(font: BitmapFont, glyph: BitmapGlyph) -> Seq<u16> {
    let rows = glyph.spec_rows();
    if font.spec_glyph_height() < rows.len() {
        rows.take(font.spec_glyph_height() as int)
    } else {
        rows
    }
}

/// The number of columns a font draws: its glyph width, at most 16.
pub open spec fn drawn_width(font: BitmapFont) -> int {
    if font.spec_glyph_width() < 16 {
        font.spec_glyph_width() as int
    } else {
        16
    }
}

/// `(px, py)` is painted by the `i`-th character of `chars` drawn with `font` at `(x, y)`.
pub open spec fn bitmap_char_covers(
    px: int,
    py: int,
    x: int,
    y: int,
    font: BitmapFont,
    chars: Seq<char>,
    scale: int,
    i: int,
) -> bool {
    match font_lookup(font, chars[i]) {
        None => false,
        Some(glyph) => glyph_covers(
            px,
            py,
            x + i * bitmap_advance(font, scale),
            y,
            drawn_rows(font, glyph),
            drawn_width(font),
            effective_scale(scale),
        ),
    }
}

/// `(px, py)` is painted by one of the first `n` characters.
pub open spec fn bitmap_text_covers_upto(
    px: int,
    py: int,
    x: int,
    y: int,
    font: BitmapFont,
    chars: Seq<char>,
    scale: int,
    n: int,
) -> bool {
    exists|i: int| 0 <= i < n && #[trigger] bitmap_char_covers(px, py, x, y, font, chars, scale, i)
}

/// Renderer for a game-authored fixed-width bitmap font.
#[derive(Debug, Clone, Copy, PartialEq, Eq)]
pub struct BitmapTextRenderer {
    font: &'static BitmapFont,
}

fn draw_glyph(
    framebuffer: &mut Framebuffer,
    font: &BitmapFont,
    glyph: BitmapGlyph,
    x: i128,
    y: i128,
    scale: u32,
    pixel: Pixel,
)
    requires
        -0x1_0000_0000_0000_0000_0000_0000 <= x <= 0x1_0000_0000_0000_0000_0000_0000,
        -0x1_0000_0000_0000_0000_0000_0000 <= y <= 0x1_0000_0000_0000_0000_0000_0000,
    ensures
        painted(
            old(framebuffer)@,
            final(framebuffer)@,
            |px: int, py: int|
                glyph_covers(
                    px,
                    py,
                    x as int,
                    y as int,
                    drawn_rows(*font, glyph),
                    drawn_width(*font),
                    scale as int,
                ),
            pixel,
        ),
{
    let width = if font.glyph_width < 16 {
        font.glyph_width
    } else {
        16
    };
    let rows = glyph.rows;
    let limit = if (font.glyph_height as usize) < rows.len() {
        font.glyph_height as usize
    } else {
        rows.len()
    };
    let mut kept: Vec<u16> = Vec::new();
    let mut i: usize = 0;
    while i < limit
        invariant
            i <= limit <= rows@.len(),
            kept@ == rows@.take(i as int),
        decreases limit - i,
    {
        kept.push(rows[i]);
        i = i + 1;
        assert(kept@ =~= rows@.take(i as int));
    }
    assert(kept@ =~= drawn_rows(*font, glyph));
    draw_glyph_cells(framebuffer, x, y, kept.as_slice(), width, scale, pixel);
}

impl BitmapTextRenderer {
    pub closed spec fn spec_font(self) -> BitmapFont {
        *self.font
    }

    pub fn new(font: &'static BitmapFont) -> (renderer: Self)
        ensures
            renderer.spec_font() == *font,
    {
        BitmapTextRenderer { font }
    }

    pub fn font(self) -> (font: &'static BitmapFont)
        ensures
            *font == self.spec_font(),
    {
        self.font
    }

    /// Draws `text` at scale one.
    pub fn draw(self, framebuffer: &mut Framebuffer, x: i32, y: i32, text: &str, pixel: Pixel)
        ensures
            painted(
                old(framebuffer)@,
                final(framebuffer)@,
                |px: int, py: int|
                    bitmap_text_covers_upto(
                        px,
                        py,
                        x as int,
                        y as int,
                        self.spec_font(),
                        text@,
                        1,
                        text@.len() as int,
                    ),
                pixel,
            ),
    {
        self.draw_scaled(framebuffer, x, y, text, 1, pixel);
    }

    /// Draws `text` with each glyph pixel as a `scale` x `scale` block (zero counts as one);
    /// characters without a glyph or fallback glyph only advance the cursor.
    pub fn draw_scaled(
        self,
        framebuffer: &mut Framebuffer,
        x: i32,
        y: i32,
        text: &str,
        scale: u32,
        pixel: Pixel,
    )
        ensures
            painted(
                old(framebuffer)@,
                final(framebuffer)@,
                |px: int, py: int|
                    bitmap_text_covers_upto(
                        px,
                        py,
                        x as int,
                        y as int,
                        self.spec_font(),
                        text@,
                        scale as int,
                        text@.len() as int,
                    ),
                pixel,
            ),
    {
        let ghost base = framebuffer@;
        let ghost chars = text@;
        let ghost font = self.spec_font();
        let count = text.unicode_len();
        let s = if scale < 1 {
            1
        } else {
            scale
        };
        let advance = saturating_mul_u32(self.font.glyph_width.saturating_add(self.font.glyph_spacing), s);
        let mut cursor_x = x as i128;
        proof {
            lemma_painted_identity(
                base,
                |px: int, py: int|
                    bitmap_text_covers_upto(px, py, x as int, y as int, font, chars, scale as int, 0),
                pixel,
            );
        }
        for character in it: text.chars()
            invariant
                count == chars.len(),
                it.seq() == chars,
                font == self.spec_font(),
                s == effective_scale(scale as int),
                advance == bitmap_advance(font, scale as int),
                cursor_x == x + it.index() * advance,
                painted(
                    base,
                    framebuffer@,
                    |px: int, py: int|
                        bitmap_text_covers_upto(
                            px,
                            py,
                            x as int,
                            y as int,
                            font,
                            chars,
                            scale as int,
                            it.index(),
                        ),
                    pixel,
                ),
        {
            let ghost i = it.index();
            assert(character == chars[i]);
            proof {
                assert(i * advance <= 0xffff_ffff_ffff_ffff * 0xffff_ffff) by (nonlinear_arith)
                    requires
                        0 <= i < 0xffff_ffff_ffff_ffff,
                        0 <= advance <= 0xffff_ffff,
                ;
            }
            let ghost before = framebuffer@;
            let glyph = self.font.glyph(character);
            match glyph {
                Some(glyph) => {
                    draw_glyph(framebuffer, self.font, glyph, cursor_x, y as i128, s, pixel);
                },
                None => {
                    proof {
                        lemma_painted_identity(before, |px: int, py: int| false, pixel);
                    }
                },
            }
            proof {
                let this_char = |px: int, py: int|
                    bitmap_char_covers(px, py, x as int, y as int, font, chars, scale as int, i);
                assert(painted(before, framebuffer@, this_char, pixel));
                assert forall|px: int, py: int| base.in_bounds(px, py) implies (bitmap_text_covers_upto(
                    px,
                    py,
                    x as int,
                    y as int,
                    font,
                    chars,
                    scale as int,
                    i + 1,
                ) == (bitmap_text_covers_upto(px, py, x as int, y as int, font, chars, scale as int, i)
                    || this_char(px, py))) by {
                    if this_char(px, py) {
                        assert(bitmap_char_covers(px, py, x as int, y as int, font, chars, scale as int, i));
                    }
                }
                lemma_painted_union(
                    base,
                    before,
                    framebuffer@,
                    |px: int, py: int|
                        bitmap_text_covers_upto(px, py, x as int, y as int, font, chars, scale as int, i),
                    this_char,
                    |px: int, py: int|
                        bitmap_text_covers_upto(px, py, x as int, y as int, font, chars, scale as int, i + 1),
                    pixel,
                );
            }
            cursor_x = cursor_x + advance as i128;
            assert((i + 1) * advance == i * advance + advance) by (nonlinear_arith);
        }
    }

    /// Width and height of `text` at `scale` (zero counts as one), saturating at `u32::MAX`.
    pub fn text_size(self, text: &str, scale: u32) -> (size: (u32, u32))
        ensures
            size.0 == fixed_text_size(
                text@.len() as int,
                scale as int,
                self.spec_font().spec_glyph_width() as int,
                self.spec_font().spec_glyph_height() as int,
                self.spec_font().spec_glyph_spacing() as int,
            ).0,
            size.1 == fixed_text_size(
                text@.len() as int,
                scale as int,
                self.spec_font().spec_glyph_width() as int,
                self.spec_font().spec_glyph_height() as int,
                self.spec_font().spec_glyph_spacing() as int,
            ).1,
    {
        fixed_text_size_u32(
            text.unicode_len(),
            scale,
            self.font.glyph_width,
            self.font.glyph_height,
            self.font.glyph_spacing,
        )
    }
}

} // verus!
