use gotoo_pixel_engine::{Font, Framebuffer, Pixel, TextRenderer};

fn rendered_text(font: Font, text: &str) -> Vec<u8> {
    let renderer = TextRenderer::new(font);
    let (width, height) = renderer.text_size(text, 1);
    let mut framebuffer = Framebuffer::new(width.max(1), height.max(1));
    renderer.draw(&mut framebuffer, 0, 0, text, Pixel::white());
    framebuffer.as_rgba8().to_vec()
}

// `Font` has a single built-in face, so each loop below runs over every font there is.

#[test]
fn managed_renderer_covers_ui_punctuation_without_placeholder() {
    for font in [Font::Pixel5x7] {
        let placeholder = rendered_text(font, "?");
        for character in ["%", "*", "'"] {
            assert_ne!(rendered_text(font, character), placeholder, "{font:?} {character}");
        }
    }
}

#[test]
fn managed_renderer_preserves_common_french_diacritics() {
    for font in [Font::Pixel5x7] {
        let placeholder = rendered_text(font, "?");
        assert_ne!(rendered_text(font, "É"), placeholder);
        assert_ne!(rendered_text(font, "È"), placeholder);
        assert_ne!(rendered_text(font, "Ç"), placeholder);
        assert_ne!(rendered_text(font, "À"), placeholder);
    }
}

#[test]
fn unsupported_latin_diacritics_fall_back_to_readable_base_letters() {
    for font in [Font::Pixel5x7] {
        assert_eq!(rendered_text(font, "Ï"), rendered_text(font, "I"));
        assert_eq!(rendered_text(font, "Ö"), rendered_text(font, "O"));
    }
}

#[test]
fn managed_renderer_keeps_builtin_fixed_width_metrics() {
    for font in [Font::Pixel5x7] {
        let renderer = TextRenderer::new(font);
        assert_eq!(renderer.text_size("100% ÉCHO", 2), Framebuffer::text_size("100% ÉCHO", 2));
    }
}

#[test]
fn lower_case_accents_share_the_capital_glyph() {
    assert_eq!(rendered_text(Font::Pixel5x7, "é"), rendered_text(Font::Pixel5x7, "É"));
    assert_eq!(rendered_text(Font::Pixel5x7, "ï"), rendered_text(Font::Pixel5x7, "I"));
    assert_eq!(rendered_text(Font::Pixel5x7, "q"), rendered_text(Font::Pixel5x7, "Q"));
    assert_eq!(TextRenderer::default().font(), Font::Pixel5x7);
}

#[test]
fn characters_advance_by_one_glyph_and_gap() {
    let renderer = TextRenderer::new(Font::Pixel5x7);
    let mut framebuffer = Framebuffer::new(12, 7);
    renderer.draw(&mut framebuffer, 0, 0, "''", Pixel::white());
    // The apostrophe lights column 2 of its first row; the second one starts six pixels on.
    assert_eq!(framebuffer.pixel(2, 0), Some(Pixel::white()));
    assert_eq!(framebuffer.pixel(8, 0), Some(Pixel::white()));
    assert_eq!(framebuffer.pixel(3, 0), Some(Pixel::rgba(0, 0, 0, 0)));
    let mut scaled = Framebuffer::new(24, 14);
    renderer.draw_scaled(&mut scaled, 0, 0, "%", 2, Pixel::white());
    assert_eq!(scaled.pixel(0, 0), Some(Pixel::white()));
    assert_eq!(scaled.pixel(1, 1), Some(Pixel::white()));
    assert_eq!(scaled.pixel(4, 0), Some(Pixel::rgba(0, 0, 0, 0)));
}

#[test]
fn text_far_right_is_clipped() {
    let renderer = TextRenderer::new(Font::Pixel5x7);
    let mut framebuffer = Framebuffer::new(4, 4);
    renderer.draw(&mut framebuffer, i32::MAX - 3, 0, "AAAA", Pixel::white());
    assert!(framebuffer.as_rgba8().iter().all(|byte| *byte == 0));
}
