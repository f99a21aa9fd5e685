use gotoo_pixel_engine::{glyph_for, Framebuffer, Pixel};

fn drawn_pixels(framebuffer: &Framebuffer, pixel: Pixel) -> Vec<(i32, i32)> {
    let mut pixels = Vec::new();

    for y in 0..framebuffer.height() as i32 {
        for x in 0..framebuffer.width() as i32 {
            if framebuffer.pixel(x, y) == Some(pixel) {
                pixels.push((x, y));
            }
        }
    }

    pixels
}

#[test]
fn allocates_rgba8_storage() {
    let framebuffer = Framebuffer::new(3, 2);

    assert_eq!(framebuffer.width(), 3);
    assert_eq!(framebuffer.height(), 2);
    assert_eq!(framebuffer.as_rgba8().len(), 3 * 2 * 4);
}

#[test]
fn clear_writes_every_pixel() {
    let mut framebuffer = Framebuffer::new(2, 2);

    framebuffer.clear(Pixel::rgba(1, 2, 3, 4));

    assert_eq!(
        framebuffer.as_rgba8(),
        &[1, 2, 3, 4, 1, 2, 3, 4, 1, 2, 3, 4, 1, 2, 3, 4]
    );
}

#[test]
fn set_pixel_writes_rgba8_at_expected_offset() {
    let mut framebuffer = Framebuffer::new(2, 2);

    framebuffer.set_pixel_in_bounds(1, 0, Pixel::rgba(1, 2, 3, 255));

    assert_eq!(
        framebuffer.as_rgba8(),
        &[0, 0, 0, 0, 1, 2, 3, 255, 0, 0, 0, 0, 0, 0, 0, 0]
    );
}

#[test]
fn draw_returns_true_and_writes_when_in_bounds() {
    let mut framebuffer = Framebuffer::new(2, 2);

    assert!(framebuffer.draw(1, 1, Pixel::white()));
    assert_eq!(framebuffer.pixel(1, 1), Some(Pixel::white()));
}

#[test]
fn draw_returns_false_and_ignores_out_of_bounds_coordinates() {
    let mut framebuffer = Framebuffer::new(2, 2);

    assert!(!framebuffer.draw(-1, 0, Pixel::white()));
    assert!(!framebuffer.draw(2, 0, Pixel::white()));
    assert!(!framebuffer.draw(0, 2, Pixel::white()));
    assert_eq!(framebuffer.as_rgba8(), &[0; 16]);
}

#[test]
fn pixel_returns_none_out_of_bounds() {
    let framebuffer = Framebuffer::new(2, 2);

    assert_eq!(framebuffer.pixel(-1, 0), None);
    assert_eq!(framebuffer.pixel(0, -1), None);
    assert_eq!(framebuffer.pixel(2, 0), None);
    assert_eq!(framebuffer.pixel(0, 2), None);
}

#[test]
fn draw_line_draws_a_diagonal() {
    let mut framebuffer = Framebuffer::new(5, 5);

    framebuffer.draw_line(0, 0, 4, 4, Pixel::white());

    assert_eq!(
        drawn_pixels(&framebuffer, Pixel::white()),
        &[(0, 0), (1, 1), (2, 2), (3, 3), (4, 4)]
    );
}

#[test]
fn draw_line_clips_pixels_outside_framebuffer() {
    let mut framebuffer = Framebuffer::new(3, 1);

    framebuffer.draw_line(-2, 0, 2, 0, Pixel::white());

    assert_eq!(
        drawn_pixels(&framebuffer, Pixel::white()),
        &[(0, 0), (1, 0), (2, 0)]
    );
}

#[test]
fn draw_line_clipping_preserves_bresenham_phase() {
    let mut framebuffer = Framebuffer::new(3, 3);

    framebuffer.draw_line(-2, -1, 4, 2, Pixel::white());

    assert_eq!(
        drawn_pixels(&framebuffer, Pixel::white()),
        &[(0, 0), (1, 1), (2, 1)]
    );
}

#[test]
fn draw_line_with_extreme_horizontal_span_only_draws_visible_pixels() {
    let mut framebuffer = Framebuffer::new(3, 3);

    framebuffer.draw_line(i32::MIN, 1, i32::MAX, 1, Pixel::white());

    assert_eq!(
        drawn_pixels(&framebuffer, Pixel::white()),
        &[(0, 1), (1, 1), (2, 1)]
    );
}

#[test]
fn draw_line_with_extreme_diagonal_span_only_draws_visible_pixels() {
    let mut framebuffer = Framebuffer::new(3, 3);

    framebuffer.draw_line(i32::MIN, i32::MIN, i32::MAX, i32::MAX, Pixel::white());

    assert_eq!(
        drawn_pixels(&framebuffer, Pixel::white()),
        &[(0, 0), (1, 1), (2, 2)]
    );
}

#[test]
fn draw_line_totally_outside_is_noop() {
    let mut framebuffer = Framebuffer::new(3, 3);

    framebuffer.draw_line(-3, -3, -1, -1, Pixel::white());

    assert!(drawn_pixels(&framebuffer, Pixel::white()).is_empty());
}

#[test]
fn draw_rect_draws_an_outline() {
    let mut framebuffer = Framebuffer::new(5, 4);

    framebuffer.draw_rect(1, 1, 3, 2, Pixel::white());

    assert_eq!(
        drawn_pixels(&framebuffer, Pixel::white()),
        &[(1, 1), (2, 1), (3, 1), (1, 2), (2, 2), (3, 2)]
    );
}

#[test]
fn draw_rect_with_zero_size_is_noop() {
    let mut framebuffer = Framebuffer::new(3, 3);

    framebuffer.draw_rect(0, 0, 0, 2, Pixel::white());
    framebuffer.draw_rect(0, 0, 2, 0, Pixel::white());

    assert!(drawn_pixels(&framebuffer, Pixel::white()).is_empty());
}

#[test]
fn draw_rect_clips_pixels_outside_framebuffer() {
    let mut framebuffer = Framebuffer::new(3, 3);

    framebuffer.draw_rect(-1, -1, 3, 3, Pixel::white());

    assert_eq!(
        drawn_pixels(&framebuffer, Pixel::white()),
        &[(1, 0), (0, 1), (1, 1)]
    );
}

#[test]
fn fill_rect_draws_every_pixel_in_area() {
    let mut framebuffer = Framebuffer::new(4, 4);

    framebuffer.fill_rect(1, 1, 2, 3, Pixel::white());

    assert_eq!(
        drawn_pixels(&framebuffer, Pixel::white()),
        &[(1, 1), (2, 1), (1, 2), (2, 2), (1, 3), (2, 3)]
    );
}

#[test]
fn fill_rect_clips_pixels_outside_framebuffer() {
    let mut framebuffer = Framebuffer::new(3, 3);

    framebuffer.fill_rect(-1, 1, 3, 3, Pixel::white());

    assert_eq!(
        drawn_pixels(&framebuffer, Pixel::white()),
        &[(0, 1), (1, 1), (0, 2), (1, 2)]
    );
}

#[test]
fn fill_rect_with_huge_invisible_area_only_draws_visible_pixels() {
    let mut framebuffer = Framebuffer::new(3, 3);

    framebuffer.fill_rect(-1, -1, u32::MAX, u32::MAX, Pixel::white());

    assert_eq!(
        drawn_pixels(&framebuffer, Pixel::white()),
        &[
            (0, 0),
            (1, 0),
            (2, 0),
            (0, 1),
            (1, 1),
            (2, 1),
            (0, 2),
            (1, 2),
            (2, 2)
        ]
    );
}

#[test]
fn fill_rect_totally_outside_with_huge_dimensions_is_noop() {
    let mut framebuffer = Framebuffer::new(3, 3);

    framebuffer.fill_rect(i32::MAX, i32::MAX, u32::MAX, u32::MAX, Pixel::white());

    assert!(drawn_pixels(&framebuffer, Pixel::white()).is_empty());
}

#[test]
fn draw_circle_with_zero_radius_draws_center_pixel() {
    let mut framebuffer = Framebuffer::new(3, 3);

    framebuffer.draw_circle(1, 1, 0, Pixel::white());

    assert_eq!(drawn_pixels(&framebuffer, Pixel::white()), &[(1, 1)]);
}

#[test]
fn draw_circle_draws_radius_one_outline() {
    let mut framebuffer = Framebuffer::new(3, 3);

    framebuffer.draw_circle(1, 1, 1, Pixel::white());

    assert_eq!(
        drawn_pixels(&framebuffer, Pixel::white()),
        &[(1, 0), (0, 1), (2, 1), (1, 2)]
    );
}

#[test]
fn draw_circle_clips_pixels_outside_framebuffer() {
    let mut framebuffer = Framebuffer::new(3, 3);

    framebuffer.draw_circle(0, 0, 2, Pixel::white());

    assert_eq!(
        drawn_pixels(&framebuffer, Pixel::white()),
        &[(2, 0), (2, 1), (0, 2), (1, 2)]
    );
}

#[test]
fn draw_circle_totally_outside_is_noop() {
    let mut framebuffer = Framebuffer::new(3, 3);

    framebuffer.draw_circle(-10, -10, 1, Pixel::white());

    assert!(drawn_pixels(&framebuffer, Pixel::white()).is_empty());
}

#[test]
fn fill_circle_draws_radius_one_disk() {
    let mut framebuffer = Framebuffer::new(3, 3);

    framebuffer.fill_circle(1, 1, 1, Pixel::white());

    assert_eq!(
        drawn_pixels(&framebuffer, Pixel::white()),
        &[(1, 0), (0, 1), (1, 1), (2, 1), (1, 2)]
    );
}

#[test]
fn fill_circle_with_zero_radius_draws_center_pixel() {
    let mut framebuffer = Framebuffer::new(3, 3);

    framebuffer.fill_circle(1, 1, 0, Pixel::white());

    assert_eq!(drawn_pixels(&framebuffer, Pixel::white()), &[(1, 1)]);
}

#[test]
fn fill_circle_clips_pixels_outside_framebuffer() {
    let mut framebuffer = Framebuffer::new(3, 3);

    framebuffer.fill_circle(0, 0, 1, Pixel::white());

    assert_eq!(
        drawn_pixels(&framebuffer, Pixel::white()),
        &[(0, 0), (1, 0), (0, 1)]
    );
}

#[test]
fn fill_circle_totally_outside_is_noop() {
    let mut framebuffer = Framebuffer::new(3, 3);

    framebuffer.fill_circle(-10, -10, 1, Pixel::white());

    assert!(drawn_pixels(&framebuffer, Pixel::white()).is_empty());
}

#[test]
fn draw_circle_totally_outside_with_huge_radius_is_noop() {
    let mut framebuffer = Framebuffer::new(3, 3);

    framebuffer.draw_circle(i32::MAX, i32::MAX, 1_000_000, Pixel::white());

    assert!(drawn_pixels(&framebuffer, Pixel::white()).is_empty());
}

#[test]
fn draw_circle_with_huge_radius_far_from_visible_pixels_is_noop() {
    let mut framebuffer = Framebuffer::new(3, 3);

    framebuffer.draw_circle(1, 1, u32::MAX, Pixel::white());

    assert!(drawn_pixels(&framebuffer, Pixel::white()).is_empty());
}

#[test]
fn fill_circle_covering_framebuffer_fills_visible_pixels_directly() {
    let mut framebuffer = Framebuffer::new(3, 3);

    framebuffer.fill_circle(1, 1, u32::MAX, Pixel::white());

    assert_eq!(
        drawn_pixels(&framebuffer, Pixel::white()),
        &[
            (0, 0),
            (1, 0),
            (2, 0),
            (0, 1),
            (1, 1),
            (2, 1),
            (0, 2),
            (1, 2),
            (2, 2)
        ]
    );
}

#[test]
fn draw_text_draws_letters() {
    let mut framebuffer = Framebuffer::new(5, 7);

    framebuffer.draw_text(0, 0, "A", Pixel::white());

    assert_eq!(
        drawn_pixels(&framebuffer, Pixel::white()),
        &[
            (1, 0),
            (2, 0),
            (3, 0),
            (0, 1),
            (4, 1),
            (0, 2),
            (4, 2),
            (0, 3),
            (1, 3),
            (2, 3),
            (3, 3),
            (4, 3),
            (0, 4),
            (4, 4),
            (0, 5),
            (4, 5),
            (0, 6),
            (4, 6)
        ]
    );
}

#[test]
fn draw_text_draws_digits() {
    let mut framebuffer = Framebuffer::new(5, 7);

    framebuffer.draw_text(0, 0, "2", Pixel::white());

    assert_eq!(
        drawn_pixels(&framebuffer, Pixel::white()),
        &[
            (1, 0),
            (2, 0),
            (3, 0),
            (0, 1),
            (4, 1),
            (4, 2),
            (3, 3),
            (2, 4),
            (1, 5),
            (0, 6),
            (1, 6),
            (2, 6),
            (3, 6),
            (4, 6)
        ]
    );
}

#[test]
fn draw_text_space_advances_without_drawing_pixels() {
    let mut framebuffer = Framebuffer::new(17, 7);

    framebuffer.draw_text(0, 0, "A A", Pixel::white());

    assert_eq!(framebuffer.pixel(6, 0), Some(Pixel::transparent()));
    assert_eq!(framebuffer.pixel(13, 0), Some(Pixel::white()));
}

#[test]
fn draw_text_empty_string_is_noop() {
    let mut framebuffer = Framebuffer::new(5, 7);

    framebuffer.draw_text(0, 0, "", Pixel::white());

    assert!(drawn_pixels(&framebuffer, Pixel::white()).is_empty());
    assert_eq!(Framebuffer::text_size("", 1), (0, 0));
}

#[test]
fn draw_text_unknown_character_uses_deterministic_placeholder() {
    let mut framebuffer = Framebuffer::new(5, 7);

    framebuffer.draw_text(0, 0, "?", Pixel::white());

    assert_eq!(framebuffer.pixel(0, 0), Some(Pixel::white()));
    assert_eq!(framebuffer.pixel(4, 0), Some(Pixel::white()));
    assert_eq!(framebuffer.pixel(2, 6), Some(Pixel::white()));
}

#[test]
fn menu_punctuation_has_explicit_glyphs() {
    assert_ne!(glyph_for('>'), glyph_for('?'));
    assert_ne!(glyph_for('/'), glyph_for('?'));
    assert_ne!(glyph_for('+'), glyph_for('?'));
}

#[test]
fn draw_text_scaled_draws_scaled_pixels() {
    let mut framebuffer = Framebuffer::new(10, 14);

    framebuffer.draw_text_scaled(0, 0, "A", 2, Pixel::white());

    assert_eq!(framebuffer.pixel(2, 0), Some(Pixel::white()));
    assert_eq!(framebuffer.pixel(3, 1), Some(Pixel::white()));
    assert_eq!(framebuffer.pixel(0, 2), Some(Pixel::white()));
    assert_eq!(framebuffer.pixel(9, 3), Some(Pixel::white()));
    assert_eq!(framebuffer.pixel(2, 2), Some(Pixel::transparent()));
}

#[test]
fn text_size_reports_scaled_metrics() {
    assert_eq!(Framebuffer::text_size("A", 1), (5, 7));
    assert_eq!(Framebuffer::text_size("A A", 2), (34, 14));
    assert_eq!(Framebuffer::text_size("A", 0), (5, 7));
}

#[test]
fn draw_text_clips_left_and_negative_coordinates() {
    let mut framebuffer = Framebuffer::new(5, 7);

    framebuffer.draw_text(-2, 0, "A", Pixel::white());

    assert_eq!(framebuffer.pixel(0, 0), Some(Pixel::white()));
    assert_eq!(framebuffer.pixel(1, 0), Some(Pixel::white()));
    assert_eq!(framebuffer.pixel(2, 1), Some(Pixel::white()));
}

#[test]
fn draw_text_clips_right() {
    let mut framebuffer = Framebuffer::new(3, 7);

    framebuffer.draw_text(0, 0, "A", Pixel::white());

    assert_eq!(framebuffer.pixel(1, 0), Some(Pixel::white()));
    assert_eq!(framebuffer.pixel(2, 0), Some(Pixel::white()));
    assert!(drawn_pixels(&framebuffer, Pixel::white()).contains(&(0, 3)));
}

#[test]
fn draw_text_clips_top() {
    let mut framebuffer = Framebuffer::new(5, 5);

    framebuffer.draw_text(0, -2, "A", Pixel::white());

    assert_eq!(framebuffer.pixel(0, 1), Some(Pixel::white()));
    assert_eq!(framebuffer.pixel(4, 1), Some(Pixel::white()));
}

#[test]
fn draw_text_clips_bottom() {
    let mut framebuffer = Framebuffer::new(5, 3);

    framebuffer.draw_text(0, 0, "A", Pixel::white());

    assert_eq!(framebuffer.pixel(1, 0), Some(Pixel::white()));
    assert_eq!(framebuffer.pixel(0, 2), Some(Pixel::white()));
}

#[test]
fn draw_text_totally_outside_framebuffer_is_noop() {
    let mut framebuffer = Framebuffer::new(5, 7);

    framebuffer.draw_text(20, 20, "A", Pixel::white());
    framebuffer.draw_text(-20, -20, "A", Pixel::white());

    assert!(drawn_pixels(&framebuffer, Pixel::white()).is_empty());
}

#[test]
fn draw_text_outside_framebuffer_does_not_panic() {
    let mut framebuffer = Framebuffer::new(5, 7);

    framebuffer.draw_text(i32::MAX, i32::MAX, "SCORE 1", Pixel::white());
    framebuffer.draw_text_scaled(i32::MIN, i32::MIN, "GAME OVER", 2, Pixel::white());

    assert!(drawn_pixels(&framebuffer, Pixel::white()).is_empty());
}

