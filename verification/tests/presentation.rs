use gotoo_pixel_engine::{present_pixel_surface, Framebuffer, Rect};

#[test]
fn integer_scale_is_centered_and_maps_points_back_to_source() {
    let mut host = Framebuffer::new(1280, 720);
    let source = Framebuffer::new(320, 180);
    let presentation = present_pixel_surface(
        &mut host,
        &source,
        Rect {
            x: 0,
            y: 0,
            width: 1280,
            height: 720,
        },
    )
    .expect("4x presentation should fit");

    assert_eq!(presentation.scale, 4);
    assert_eq!(presentation.rect.x, 0);
    assert_eq!(presentation.rect.y, 0);
    assert_eq!(presentation.rect.width, 1280);
    assert_eq!(presentation.rect.height, 720);
    assert_eq!(presentation.map_point((0, 0)), Some((0, 0)));
    assert_eq!(presentation.map_point((1279, 719)), Some((319, 179)));
    assert_eq!(presentation.map_point((1280, 719)), None);
}

#[test]
fn contain_centers_integer_scaled_surface_inside_non_matching_bounds() {
    let mut host = Framebuffer::new(1000, 700);
    let source = Framebuffer::new(320, 180);
    let presentation = present_pixel_surface(
        &mut host,
        &source,
        Rect {
            x: 0,
            y: 0,
            width: 1000,
            height: 700,
        },
    )
    .expect("3x presentation should fit");

    assert_eq!(presentation.scale, 3);
    assert_eq!(presentation.rect.width, 960);
    assert_eq!(presentation.rect.height, 540);
    assert_eq!(presentation.rect.x, 20);
    assert_eq!(presentation.rect.y, 80);
    assert_eq!(presentation.map_point((20, 80)), Some((0, 0)));
    assert_eq!(presentation.map_point((979, 619)), Some((319, 179)));
    assert_eq!(presentation.map_point((19, 80)), None);
}
