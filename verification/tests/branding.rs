use gotoo_pixel_engine::{draw_glyph, gpe_icon_rgba, paint_rect, ICON_SIZE};

fn pixel(rgba: &[u8], x: usize, y: usize) -> &[u8] {
    let offset = (y * ICON_SIZE as usize + x) * 4;
    &rgba[offset..offset + 4]
}

#[test]
fn default_icon_has_expected_rgba_shape() {
    let rgba = gpe_icon_rgba();
    assert_eq!(rgba.len(), (ICON_SIZE * ICON_SIZE * 4) as usize);
    assert_eq!(&rgba[0..4], &[0, 0, 0, 0]);
}

#[test]
fn icon_layers_are_painted_in_order() {
    let rgba = gpe_icon_rgba();
    assert_eq!(pixel(&rgba, 2, 2), &[104, 222, 255, 255]);
    assert_eq!(pixel(&rgba, 10, 10), &[7, 10, 18, 255]);
    assert_eq!(pixel(&rgba, 5, 6), &[246, 196, 83, 255]);
    assert_eq!(pixel(&rgba, 15, 24), &[232, 240, 255, 255]);
    assert_eq!(pixel(&rgba, 4, 11), &[246, 196, 83, 255]);
    assert_eq!(pixel(&rgba, 6, 13), &[7, 10, 18, 255]);
    assert_eq!(pixel(&rgba, 13, 11), &[185, 104, 255, 255]);
    assert_eq!(pixel(&rgba, 22, 11), &[104, 222, 255, 255]);
    assert_eq!(pixel(&rgba, 31, 31), &[0, 0, 0, 0]);
}

#[test]
fn rectangles_are_clipped_to_the_icon() {
    let mut rgba = vec![0u8; 4096];
    paint_rect(&mut rgba, 30, 30, 10, u32::MAX, [1, 2, 3, 4]);
    assert_eq!(pixel(&rgba, 31, 31), &[1, 2, 3, 4]);
    assert_eq!(pixel(&rgba, 30, 30), &[1, 2, 3, 4]);
    assert_eq!(pixel(&rgba, 29, 31), &[0, 0, 0, 0]);
    assert_eq!(rgba.iter().filter(|byte| **byte != 0).count(), 16);
}

#[test]
fn glyph_cells_are_two_pixels_square() {
    let mut rgba = vec![0u8; 4096];
    draw_glyph(&mut rgba, 0, 0, &["10", "", "01", "", ""], [9, 9, 9, 9]);
    assert_eq!(pixel(&rgba, 1, 1), &[9, 9, 9, 9]);
    assert_eq!(pixel(&rgba, 2, 0), &[0, 0, 0, 0]);
    assert_eq!(pixel(&rgba, 3, 5), &[9, 9, 9, 9]);
    assert_eq!(pixel(&rgba, 1, 4), &[0, 0, 0, 0]);
}
