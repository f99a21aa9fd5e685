use gotoo_pixel_engine::{Framebuffer, Pixel, Sprite, SpriteError};

#[test]
fn rejects_invalid_pixel_count() {
    assert_eq!(
        Sprite::new(2, 2, vec![Pixel::white()]).unwrap_err(),
        SpriteError::PixelCountMismatch {
            expected: 4,
            actual: 1,
        }
    );
}

#[test]
fn transparent_pixels_leave_framebuffer_untouched() {
    let sprite = Sprite::new(
        2,
        1,
        vec![Pixel::transparent(), Pixel::rgb(10, 20, 30)],
    )
    .unwrap();
    let mut framebuffer = Framebuffer::new(3, 1);
    framebuffer.clear(Pixel::rgb(1, 2, 3));

    sprite.draw(&mut framebuffer, 0, 0);

    assert_eq!(framebuffer.pixel(0, 0), Some(Pixel::rgb(1, 2, 3)));
    assert_eq!(framebuffer.pixel(1, 0), Some(Pixel::rgb(10, 20, 30)));
}

#[test]
fn drawing_is_clipped_by_framebuffer() {
    let sprite = Sprite::new(2, 2, vec![Pixel::white(); 4]).unwrap();
    let mut framebuffer = Framebuffer::new(2, 2);
    framebuffer.clear(Pixel::black());

    sprite.draw(&mut framebuffer, 1, 1);

    assert_eq!(framebuffer.pixel(1, 1), Some(Pixel::white()));
    assert_eq!(framebuffer.pixel(0, 0), Some(Pixel::black()));
}

#[test]
fn centered_sprite_is_moved_up_and_left_by_half_its_extent() {
    let sprite = Sprite::new(3, 2, vec![Pixel::white(); 6]).unwrap();
    let mut framebuffer = Framebuffer::new(5, 5);
    framebuffer.clear(Pixel::black());

    sprite.draw_centered(&mut framebuffer, 2, 2);

    assert_eq!(framebuffer.pixel(1, 1), Some(Pixel::white()));
    assert_eq!(framebuffer.pixel(3, 2), Some(Pixel::white()));
    assert_eq!(framebuffer.pixel(0, 1), Some(Pixel::black()));
    assert_eq!(framebuffer.pixel(1, 3), Some(Pixel::black()));
}
