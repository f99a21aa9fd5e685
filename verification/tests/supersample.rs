use gotoo_pixel_engine::{
    clamp_raster_scale, div_ceil_u32, downsampled_alpha, Framebuffer, Pixel, MAX_TEXT_RASTER_SCALE,
};

#[test]
fn raster_scale_is_clamped_to_the_supported_range() {
    assert_eq!(clamp_raster_scale(0), 1);
    assert_eq!(clamp_raster_scale(1), 1);
    assert_eq!(clamp_raster_scale(3), 3);
    assert_eq!(clamp_raster_scale(9), MAX_TEXT_RASTER_SCALE);
    assert_eq!(MAX_TEXT_RASTER_SCALE, 4);
}

#[test]
fn division_rounds_up() {
    assert_eq!(div_ceil_u32(10, 3), 4);
    assert_eq!(div_ceil_u32(9, 3), 3);
    assert_eq!(div_ceil_u32(0, 4), 0);
    assert_eq!(div_ceil_u32(u32::MAX, 1), u32::MAX);
    assert_eq!(div_ceil_u32(u32::MAX, 2), 2_147_483_648);
}

#[test]
fn downsampling_averages_the_alpha_of_each_block() {
    let mut temp = Framebuffer::new(4, 2);
    temp.clear(Pixel::rgba(0, 0, 0, 0));
    temp.set_pixel_in_bounds(0, 0, Pixel::rgba(9, 9, 9, 255));
    temp.set_pixel_in_bounds(1, 1, Pixel::rgba(9, 9, 9, 100));
    temp.set_pixel_in_bounds(2, 0, Pixel::rgba(9, 9, 9, 1));

    assert_eq!(downsampled_alpha(&temp, 0, 0, 2), 89);
    assert_eq!(downsampled_alpha(&temp, 1, 0, 2), 0);
    assert_eq!(downsampled_alpha(&temp, 0, 0, 1), 255);
    assert_eq!(downsampled_alpha(&temp, 1, 1, 1), 100);
}

#[test]
fn blending_composites_over_one_pixel() {
    let mut framebuffer = Framebuffer::new(2, 1);
    framebuffer.clear(Pixel::rgba(0, 0, 0, 255));
    framebuffer.blend_rgba8(0, 0, &[255, 255, 255, 128]);
    framebuffer.blend_rgba8(5, 0, &[255, 255, 255, 255]);

    assert_eq!(framebuffer.pixel(0, 0), Some(Pixel::rgba(128, 128, 128, 255)));
    assert_eq!(framebuffer.pixel(1, 0), Some(Pixel::rgba(0, 0, 0, 255)));
}
