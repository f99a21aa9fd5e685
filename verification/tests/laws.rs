use gotoo_pixel_engine::{
    BitmapFont, BitmapGlyph, BitmapTextRenderer, Framebuffer, GamepadAxis, GamepadButton, GamepadCapabilities,
    GamepadCapability, Image, ImageFilter, ImageFit, OpaqueText, Pixel, Rect, SoundBank, SoundId, Sprite,
};

#[test]
fn setting_one_button_capability_changes_that_button_alone() {
    let mut caps = GamepadCapabilities::standard();
    caps.set_button(GamepadButton::Guide, GamepadCapability::Unavailable);
    assert_eq!(caps.button(GamepadButton::Guide), GamepadCapability::Unavailable);
    assert_eq!(caps.button(GamepadButton::South), GamepadCapability::Available);
    assert_eq!(caps.axis(GamepadAxis::LeftStickX), GamepadCapability::Available);
    assert_eq!(GamepadCapabilities::unknown().button(GamepadButton::Start), GamepadCapability::Unknown);
}

#[test]
fn drawing_never_changes_framebuffer_extent() {
    let mut framebuffer = Framebuffer::new(7, 5);
    framebuffer.clear(Pixel::black());
    framebuffer.draw_line(-3, -3, 20, 9, Pixel::white());
    framebuffer.fill_circle(3, 2, 9, Pixel::red());
    framebuffer.draw_text_scaled(0, 0, "WIDE TEXT", 3, Pixel::green());
    framebuffer.fill_rect(-100, -100, 1000, 1000, Pixel::blue());
    assert_eq!((framebuffer.width(), framebuffer.height()), (7, 5));
    assert_eq!(framebuffer.as_rgba8().len(), 7 * 5 * 4);
}

#[test]
fn built_in_text_stays_in_its_box_and_scale_zero_is_scale_one() {
    let mut framebuffer = Framebuffer::new(40, 24);
    framebuffer.clear(Pixel::black());
    framebuffer.draw_text_scaled(1, 2, "W8", 2, Pixel::white());
    for y in 0..24 {
        for x in 0..40 {
            if framebuffer.pixel(x, y) != Some(Pixel::black()) {
                assert!((1..1 + 6 * 2 * 2 - 2).contains(&x) && (2..2 + 7 * 2).contains(&y));
            }
        }
    }
    let mut zero = Framebuffer::new(20, 10);
    let mut one = Framebuffer::new(20, 10);
    zero.draw_text_scaled(0, 0, "OK", 0, Pixel::white());
    one.draw_text(0, 0, "OK", Pixel::white());
    assert_eq!(zero.as_rgba8(), one.as_rgba8());
}

#[test]
fn centered_sprite_equals_shifted_draw() {
    let sprite = Sprite::new(3, 3, vec![Pixel::red(); 9]).unwrap();
    let mut centered = Framebuffer::new(6, 6);
    let mut shifted = Framebuffer::new(6, 6);
    sprite.draw_centered(&mut centered, 3, 3);
    sprite.draw(&mut shifted, 2, 2);
    assert_eq!(centered.as_rgba8(), shifted.as_rgba8());
}

fn test_font() -> &'static BitmapFont {
    let glyphs: &'static [BitmapGlyph] = Box::leak(
        vec![
            BitmapGlyph::new('A', &[0b010, 0b101, 0b111, 0b101, 0b101]),
            BitmapGlyph::new('=', &[0b000, 0b111, 0b000, 0b111, 0b000]),
        ]
        .into_boxed_slice(),
    );
    Box::leak(Box::new(BitmapFont::new("laws_3x5", 3, 5, 1, glyphs, '#')))
}

#[test]
fn bitmap_text_is_the_concatenation_of_its_parts() {
    let renderer = BitmapTextRenderer::new(test_font());
    let mut whole = Framebuffer::new(40, 12);
    let mut parts = Framebuffer::new(40, 12);
    renderer.draw_scaled(&mut whole, 1, 1, "A=xA", 2, Pixel::white());
    renderer.draw_scaled(&mut parts, 1, 1, "A=", 2, Pixel::white());
    renderer.draw_scaled(&mut parts, 1 + 2 * 8, 1, "xA", 2, Pixel::white());
    assert_eq!(whole.as_rgba8(), parts.as_rgba8());
}

#[test]
fn a_bank_keeps_what_it_holds() {
    let mut bank = SoundBank::new();
    let id = SoundId::new("laws.kept");
    assert!(!bank.contains(id));
    assert!(bank.insert_wav(id, vec![1, 2, 3]).is_ok());
    assert!(bank.contains(id));
    assert!(bank.insert_wav(id, vec![4]).is_err());
    assert!(bank.contains(id));
}

#[test]
fn truncated_opaque_text_keeps_at_least_capacity_minus_three() {
    let long = "😀".repeat(60);
    let text = OpaqueText::new(&long);
    assert!(text.truncated);
    assert!(text.stored_len() >= text.capacity() - 3);
    assert_eq!(text.stored_len(), 192);
    let odd = format!("a{}", "😀".repeat(60));
    let text = OpaqueText::new(&odd);
    assert!(text.truncated);
    assert_eq!(text.stored_len(), 189);
    let short = "fits in the buffer";
    let text = OpaqueText::new(short);
    assert!(!text.truncated);
    assert_eq!(text.as_str(), short);
}

#[test]
fn hidden_colour_never_bleeds_into_a_fitted_image() {
    let visible = Pixel::rgb(0, 255, 0);
    let first = Image::from_rgba8(2, 1, [[255u8, 0, 0, 0], visible.to_rgba8()].concat()).unwrap();
    let second = Image::from_rgba8(2, 1, [[0u8, 0, 255, 0], visible.to_rgba8()].concat()).unwrap();
    for filter in [ImageFilter::Nearest, ImageFilter::Linear] {
        let destination = Rect { x: 0, y: 0, width: 3, height: 1 };
        let mut a = Framebuffer::new(3, 1);
        let mut b = Framebuffer::new(3, 1);
        a.clear(Pixel::black());
        b.clear(Pixel::black());
        a.draw_image_fit(&first, destination, ImageFit::Stretch, filter);
        b.draw_image_fit(&second, destination, ImageFit::Stretch, filter);
        assert_eq!(a.as_rgba8(), b.as_rgba8());
    }
}
