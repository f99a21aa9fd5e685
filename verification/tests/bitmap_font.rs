use gotoo_pixel_engine::{BitmapFont, BitmapGlyph, BitmapTextRenderer, Framebuffer, Pixel};

fn test_font() -> &'static BitmapFont {
    let glyphs: &'static [BitmapGlyph] = Box::leak(
        vec![
            BitmapGlyph::new('A', &[0b010, 0b101, 0b111, 0b101, 0b101]),
            BitmapGlyph::new('=', &[0b000, 0b111, 0b000, 0b111, 0b000]),
            BitmapGlyph::new('?', &[0b110, 0b001, 0b010, 0b000, 0b010]),
            BitmapGlyph::new(' ', &[0, 0, 0, 0, 0]),
        ]
        .into_boxed_slice(),
    );
    Box::leak(Box::new(BitmapFont::new("test_3x5", 3, 5, 1, glyphs, '?')))
}

fn rendered(text: &str) -> Vec<u8> {
    let renderer = BitmapTextRenderer::new(test_font());
    let (width, height) = renderer.text_size(text, 1);
    let mut framebuffer = Framebuffer::new(width.max(1), height.max(1));
    renderer.draw(&mut framebuffer, 0, 0, text, Pixel::white());
    framebuffer.as_rgba8().to_vec()
}

#[test]
fn custom_font_renders_authored_punctuation_without_placeholder() {
    assert_ne!(rendered("="), rendered("?"));
}

#[test]
fn custom_font_uses_declared_fallback_for_unknown_glyphs() {
    assert_eq!(rendered("@"), rendered("?"));
}

#[test]
fn custom_font_metrics_are_fixed_width_and_scaled() {
    let renderer = BitmapTextRenderer::new(test_font());
    assert_eq!(renderer.text_size("AA", 1), (7, 5));
    assert_eq!(renderer.text_size("AA", 2), (14, 10));
}

#[test]
fn glyph_lookup_prefers_the_first_matching_glyph() {
    let glyphs: &'static [BitmapGlyph] = Box::leak(
        vec![
            BitmapGlyph::new('A', &[0b1]),
            BitmapGlyph::new('A', &[0b0]),
        ]
        .into_boxed_slice(),
    );
    let font = BitmapFont::new("dup", 1, 1, 0, glyphs, 'A');
    assert_eq!(font.glyph('A').map(|glyph| glyph.rows()), Some(&[0b1_u16][..]));
}

#[test]
fn missing_fallback_glyph_draws_nothing() {
    let glyphs: &'static [BitmapGlyph] = Box::leak(vec![BitmapGlyph::new('A', &[0b1])].into_boxed_slice());
    let font: &'static BitmapFont = Box::leak(Box::new(BitmapFont::new("one", 1, 1, 0, glyphs, '?')));
    assert_eq!(font.glyph('B'), None);
    let renderer = BitmapTextRenderer::new(font);
    let mut framebuffer = Framebuffer::new(2, 1);
    renderer.draw(&mut framebuffer, 0, 0, "BA", Pixel::white());
    assert_eq!(framebuffer.pixel(0, 0), Some(Pixel::transparent()));
    assert_eq!(framebuffer.pixel(1, 0), Some(Pixel::white()));
}

#[test]
fn scaled_glyph_pixels_become_blocks() {
    let renderer = BitmapTextRenderer::new(test_font());
    let mut framebuffer = Framebuffer::new(6, 10);
    renderer.draw_scaled(&mut framebuffer, 0, 0, "A", 2, Pixel::white());
    assert_eq!(framebuffer.pixel(2, 0), Some(Pixel::white()));
    assert_eq!(framebuffer.pixel(3, 1), Some(Pixel::white()));
    assert_eq!(framebuffer.pixel(0, 0), Some(Pixel::transparent()));
}
