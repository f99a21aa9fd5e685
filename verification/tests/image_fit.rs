use gotoo_pixel_engine::{
    fit_plan, sample_rgba, Framebuffer, Image, ImageFilter, ImageFit, ImageRegion, Pixel, RasterRect,
    Rect,
};

fn image_from_pixels(width: u32, height: u32, pixels: &[Pixel]) -> Image {
    let rgba8 = pixels.iter().flat_map(|pixel| pixel.to_rgba8()).collect();
    Image::from_rgba8(width, height, rgba8).expect("test image dimensions must be valid")
}

fn rect(x: i32, y: i32, width: u32, height: u32) -> Rect {
    Rect {
        x,
        y,
        width,
        height,
    }
}

#[test]
fn contain_same_aspect_ratio_uses_full_destination() {
    let plan = fit_plan(
        ImageRegion::new(0, 0, 4, 2),
        rect(10, 20, 12, 6),
        ImageFit::Contain,
    )
    .expect("non-empty fit");

    assert_eq!(
        plan.draw,
        RasterRect {
            x: 10,
            y: 20,
            width: 12,
            height: 6,
        }
    );
}

#[test]
fn contain_centers_inside_wider_and_taller_destinations() {
    let wide = fit_plan(
        ImageRegion::new(0, 0, 4, 2),
        rect(10, 20, 12, 12),
        ImageFit::Contain,
    )
    .expect("non-empty fit");
    let tall = fit_plan(
        ImageRegion::new(0, 0, 2, 4),
        rect(10, 20, 12, 12),
        ImageFit::Contain,
    )
    .expect("non-empty fit");

    assert_eq!(
        wide.draw,
        RasterRect {
            x: 10,
            y: 23,
            width: 12,
            height: 6
        }
    );
    assert_eq!(
        tall.draw,
        RasterRect {
            x: 13,
            y: 20,
            width: 6,
            height: 12
        }
    );
}

#[test]
fn cover_keeps_destination_and_centers_source_crop() {
    let horizontal = fit_plan(
        ImageRegion::new(0, 0, 4, 2),
        rect(0, 0, 6, 6),
        ImageFit::Cover,
    )
    .expect("non-empty fit");
    let vertical = fit_plan(
        ImageRegion::new(0, 0, 2, 4),
        rect(0, 0, 6, 6),
        ImageFit::Cover,
    )
    .expect("non-empty fit");

    assert_eq!(
        horizontal.draw,
        RasterRect {
            x: 0,
            y: 0,
            width: 6,
            height: 6
        }
    );
    assert_eq!(horizontal.x_map.nearest_index(0, 4), 1);
    assert_eq!(horizontal.x_map.nearest_index(5, 4), 2);
    assert_eq!(
        vertical.draw,
        RasterRect {
            x: 0,
            y: 0,
            width: 6,
            height: 6
        }
    );
    assert_eq!(vertical.y_map.nearest_index(0, 4), 1);
    assert_eq!(vertical.y_map.nearest_index(5, 4), 2);
}

#[test]
fn contain_leaves_unused_destination_pixels_untouched() {
    let image = image_from_pixels(2, 2, &[Pixel::white(); 4]);
    let mut framebuffer = Framebuffer::new(6, 2);
    framebuffer.clear(Pixel::black());

    framebuffer.draw_image_fit(
        &image,
        rect(0, 0, 6, 2),
        ImageFit::Contain,
        ImageFilter::Nearest,
    );

    assert_eq!(framebuffer.pixel(0, 0), Some(Pixel::black()));
    assert_eq!(framebuffer.pixel(1, 1), Some(Pixel::black()));
    assert_eq!(framebuffer.pixel(2, 0), Some(Pixel::white()));
    assert_eq!(framebuffer.pixel(3, 1), Some(Pixel::white()));
    assert_eq!(framebuffer.pixel(4, 0), Some(Pixel::black()));
    assert_eq!(framebuffer.pixel(5, 1), Some(Pixel::black()));
}

#[test]
fn cover_crops_source_around_center() {
    let image = image_from_pixels(4, 1, &[Pixel::red(), Pixel::green(), Pixel::blue(), Pixel::white()]);
    let mut framebuffer = Framebuffer::new(2, 2);

    framebuffer.draw_image_fit(
        &image,
        rect(0, 0, 2, 2),
        ImageFit::Cover,
        ImageFilter::Nearest,
    );

    assert_eq!(framebuffer.pixel(0, 0), Some(Pixel::green()));
    assert_eq!(framebuffer.pixel(1, 0), Some(Pixel::blue()));
    assert_eq!(framebuffer.pixel(0, 1), Some(Pixel::green()));
    assert_eq!(framebuffer.pixel(1, 1), Some(Pixel::blue()));
}

#[test]
fn nearest_enlargement_repeats_source_texels() {
    let image = image_from_pixels(2, 2, &[Pixel::red(), Pixel::green(), Pixel::blue(), Pixel::white()]);
    let mut framebuffer = Framebuffer::new(4, 4);

    framebuffer.draw_image_fit(
        &image,
        rect(0, 0, 4, 4),
        ImageFit::Stretch,
        ImageFilter::Nearest,
    );

    for y in 0..4 {
        for x in 0..4 {
            let expected = match (x >= 2, y >= 2) {
                (false, false) => Pixel::red(),
                (true, false) => Pixel::green(),
                (false, true) => Pixel::blue(),
                (true, true) => Pixel::white(),
            };
            assert_eq!(framebuffer.pixel(x, y), Some(expected));
        }
    }
}

#[test]
fn nearest_reduction_samples_destination_pixel_centers() {
    let image = image_from_pixels(4, 1, &[Pixel::red(), Pixel::green(), Pixel::blue(), Pixel::white()]);
    let mut framebuffer = Framebuffer::new(2, 1);

    framebuffer.draw_image_fit(
        &image,
        rect(0, 0, 2, 1),
        ImageFit::Stretch,
        ImageFilter::Nearest,
    );

    assert_eq!(framebuffer.pixel(0, 0), Some(Pixel::green()));
    assert_eq!(framebuffer.pixel(1, 0), Some(Pixel::white()));
}

#[test]
fn linear_filter_interpolates_middle_pixel() {
    let image = image_from_pixels(2, 1, &[Pixel::black(), Pixel::white()]);
    let mut framebuffer = Framebuffer::new(3, 1);

    framebuffer.draw_image_fit(
        &image,
        rect(0, 0, 3, 1),
        ImageFit::Stretch,
        ImageFilter::Linear,
    );

    assert_eq!(framebuffer.pixel(0, 0), Some(Pixel::black()));
    assert_eq!(framebuffer.pixel(1, 0), Some(Pixel::rgb(128, 128, 128)));
    assert_eq!(framebuffer.pixel(2, 0), Some(Pixel::white()));
}

#[test]
fn linear_transparent_edge_is_alpha_correct() {
    let image = image_from_pixels(
        2,
        1,
        &[Pixel::rgba(0, 0, 0, 0), Pixel::rgba(255, 255, 255, 255)],
    );
    let region = ImageRegion::new(0, 0, 2, 1);
    let plan = fit_plan(region, rect(0, 0, 3, 1), ImageFit::Stretch).expect("non-empty fit");

    assert_eq!(
        sample_rgba(
            &image,
            region,
            plan.x_map,
            plan.y_map,
            1,
            0,
            ImageFilter::Linear,
        ),
        [255, 255, 255, 128]
    );

    let mut framebuffer = Framebuffer::new(3, 1);
    framebuffer.clear(Pixel::black());
    framebuffer.draw_image_fit(
        &image,
        rect(0, 0, 3, 1),
        ImageFit::Stretch,
        ImageFilter::Linear,
    );
    assert_eq!(framebuffer.pixel(1, 0), Some(Pixel::rgb(128, 128, 128)));
}

#[test]
fn linear_fully_transparent_rgb_does_not_bleed() {
    let hidden_black = image_from_pixels(
        2,
        1,
        &[Pixel::rgba(0, 0, 0, 0), Pixel::rgba(0, 255, 0, 255)],
    );
    let hidden_magenta = image_from_pixels(
        2,
        1,
        &[
            Pixel::rgba(255, 0, 255, 0),
            Pixel::rgba(0, 255, 0, 255),
        ],
    );

    let mut first = Framebuffer::new(3, 1);
    let mut second = Framebuffer::new(3, 1);
    first.clear(Pixel::black());
    second.clear(Pixel::black());
    first.draw_image_fit(
        &hidden_black,
        rect(0, 0, 3, 1),
        ImageFit::Stretch,
        ImageFilter::Linear,
    );
    second.draw_image_fit(
        &hidden_magenta,
        rect(0, 0, 3, 1),
        ImageFit::Stretch,
        ImageFilter::Linear,
    );

    assert_eq!(first.as_rgba8(), second.as_rgba8());
    assert_eq!(first.pixel(1, 0), Some(Pixel::rgb(0, 128, 0)));
}

#[test]
fn linear_2d_center_uses_four_texels() {
    let image = image_from_pixels(
        2,
        2,
        &[
            Pixel::rgb(40, 0, 0),
            Pixel::rgb(0, 80, 0),
            Pixel::rgb(0, 0, 120),
            Pixel::rgb(160, 200, 240),
        ],
    );
    let mut framebuffer = Framebuffer::new(3, 3);

    framebuffer.draw_image_fit(
        &image,
        rect(0, 0, 3, 3),
        ImageFit::Stretch,
        ImageFilter::Linear,
    );

    assert_eq!(framebuffer.pixel(1, 1), Some(Pixel::rgb(50, 70, 90)));
}

#[test]
fn image_region_fit_scales_only_the_requested_subregion() {
    let image = image_from_pixels(4, 1, &[Pixel::red(), Pixel::green(), Pixel::blue(), Pixel::white()]);
    let mut framebuffer = Framebuffer::new(4, 1);

    framebuffer.draw_image_region_fit(
        &image,
        ImageRegion::new(1, 0, 2, 1),
        rect(0, 0, 4, 1),
        ImageFit::Stretch,
        ImageFilter::Nearest,
    );

    assert_eq!(
        framebuffer.as_rgba8(),
        &[
            0, 255, 0, 255, 0, 255, 0, 255, 0, 0, 255, 255, 0, 0, 255, 255,
        ]
    );
}

#[test]
fn source_region_is_clipped_before_scaling_and_empty_region_draws_nothing() {
    let image = image_from_pixels(4, 1, &[Pixel::red(), Pixel::green(), Pixel::blue(), Pixel::white()]);
    let mut framebuffer = Framebuffer::new(3, 1);
    framebuffer.clear(Pixel::black());

    framebuffer.draw_image_region_fit(
        &image,
        ImageRegion::new(3, 0, 4, 1),
        rect(0, 0, 2, 1),
        ImageFit::Stretch,
        ImageFilter::Nearest,
    );
    framebuffer.draw_image_region_fit(
        &image,
        ImageRegion::new(4, 0, 1, 1),
        rect(2, 0, 1, 1),
        ImageFit::Stretch,
        ImageFilter::Nearest,
    );

    assert_eq!(framebuffer.pixel(0, 0), Some(Pixel::white()));
    assert_eq!(framebuffer.pixel(1, 0), Some(Pixel::white()));
    assert_eq!(framebuffer.pixel(2, 0), Some(Pixel::black()));
}

#[test]
fn destination_clipping_preserves_source_mapping() {
    let image = image_from_pixels(2, 1, &[Pixel::red(), Pixel::green()]);
    let mut framebuffer = Framebuffer::new(2, 1);
    framebuffer.clear(Pixel::black());

    framebuffer.draw_image_fit(
        &image,
        rect(-1, 0, 2, 1),
        ImageFit::Stretch,
        ImageFilter::Nearest,
    );
    assert_eq!(framebuffer.pixel(0, 0), Some(Pixel::green()));
    assert_eq!(framebuffer.pixel(1, 0), Some(Pixel::black()));

    framebuffer.draw_image_fit(
        &image,
        rect(1, 0, 2, 1),
        ImageFit::Stretch,
        ImageFilter::Nearest,
    );
    assert_eq!(framebuffer.pixel(1, 0), Some(Pixel::red()));
}

#[test]
fn zero_sized_and_fully_offscreen_destinations_draw_nothing() {
    let image = image_from_pixels(1, 1, &[Pixel::white()]);
    let mut framebuffer = Framebuffer::new(2, 2);
    framebuffer.clear(Pixel::black());

    framebuffer.draw_image_fit(
        &image,
        rect(0, 0, 0, 2),
        ImageFit::Stretch,
        ImageFilter::Nearest,
    );
    framebuffer.draw_image_fit(
        &image,
        rect(i32::MAX, i32::MAX, 10, 10),
        ImageFit::Stretch,
        ImageFilter::Nearest,
    );

    assert!(
        framebuffer
            .as_rgba8()
            .chunks_exact(4)
            .all(|pixel| pixel == [0, 0, 0, 255])
    );
}

#[test]
fn extreme_destination_extent_is_clipped_without_coordinate_overflow() {
    let image = image_from_pixels(2, 1, &[Pixel::red(), Pixel::green()]);
    let mut framebuffer = Framebuffer::new(2, 1);

    framebuffer.draw_image_fit(
        &image,
        rect(i32::MIN, 0, u32::MAX, 1),
        ImageFit::Stretch,
        ImageFilter::Nearest,
    );

    assert_eq!(framebuffer.pixel(0, 0), Some(Pixel::green()));
    assert_eq!(framebuffer.pixel(1, 0), Some(Pixel::green()));
}

#[test]
fn scaled_draw_uses_the_existing_source_over_alpha_semantics() {
    let image = image_from_pixels(1, 1, &[Pixel::rgba(200, 100, 50, 128)]);
    let mut framebuffer = Framebuffer::new(1, 1);
    framebuffer.set_pixel_in_bounds(0, 0, Pixel::rgba(20, 40, 60, 80));

    framebuffer.draw_image_fit(
        &image,
        rect(0, 0, 1, 1),
        ImageFit::Stretch,
        ImageFilter::Nearest,
    );

    assert_eq!(framebuffer.pixel(0, 0), Some(Pixel::rgba(110, 70, 55, 168)));
}
