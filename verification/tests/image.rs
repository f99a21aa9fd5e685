use gotoo_pixel_engine::Image;
use gotoo_pixel_engine::{normalize_png_frame_to_rgba8, PngFrame};

#[test]
fn rejects_rgba_buffers_with_wrong_length() {
    let error = Image::from_rgba8(2, 2, vec![0; 15]).unwrap_err();

    assert!(error.message().contains("length mismatch"));
}

#[test]
fn length_mismatch_message_names_both_lengths() {
    let error = Image::from_rgba8(2, 2, vec![0; 15]).unwrap_err();

    assert_eq!(
        error.message(),
        "RGBA buffer length mismatch: expected 16 bytes, got 15"
    );
}

#[test]
fn rejects_dimensions_whose_pixel_count_overflows() {
    let error = Image::from_rgba8(u32::MAX, 2, Vec::new()).unwrap_err();

    assert_eq!(error.message(), "image dimensions overflow");
}

#[test]
fn rejects_dimensions_whose_byte_length_overflows() {
    let error = Image::from_rgba8(0x4000_0000, 1, Vec::new()).unwrap_err();

    assert_eq!(error.message(), "image byte length overflow");
}

#[test]
fn accepts_matching_buffer() {
    let image = Image::from_rgba8(1, 2, vec![1, 2, 3, 4, 5, 6, 7, 8]).unwrap();

    assert_eq!(image.width(), 1);
    assert_eq!(image.height(), 2);
    assert_eq!(image.as_rgba8(), &[1, 2, 3, 4, 5, 6, 7, 8]);
}

#[test]
fn empty_image_has_no_bytes() {
    let image = Image::from_rgba8(0, 7, Vec::new()).unwrap();

    assert_eq!(image.as_rgba8().len(), 0);
}

fn tiny_rgba_png() -> Vec<u8> {
    let mut bytes = Vec::new();
    {
        let mut encoder = png::Encoder::new(&mut bytes, 2, 1);
        encoder.set_color(png::ColorType::Rgba);
        encoder.set_depth(png::BitDepth::Eight);
        let mut writer = encoder.write_header().expect("header");
        writer
            .write_image_data(&[255, 0, 0, 255, 0, 128, 255, 128])
            .expect("image data");
    }
    bytes
}

#[test]
fn decodes_rgba_png_bytes() {
    let bytes = tiny_rgba_png();
    let image = Image::decode_png(&bytes).expect("valid PNG should decode");

    assert_eq!(image.width(), 2);
    assert_eq!(image.height(), 1);
    assert_eq!(image.as_rgba8(), &[255, 0, 0, 255, 0, 128, 255, 128]);
}

#[test]
fn invalid_png_reports_decode_error() {
    let error = Image::decode_png(b"not a png").unwrap_err();

    assert!(error.message().contains("PNG decode failed"));
}

#[test]
fn grayscale_png_expands_to_rgba() {
    let mut bytes = Vec::new();
    {
        let mut encoder = png::Encoder::new(&mut bytes, 2, 1);
        encoder.set_color(png::ColorType::Grayscale);
        encoder.set_depth(png::BitDepth::Eight);
        let mut writer = encoder.write_header().expect("header");
        writer.write_image_data(&[10, 200]).expect("image data");
    }
    let image = Image::decode_png(&bytes).expect("valid PNG should decode");
    assert_eq!(image.as_rgba8(), &[10, 10, 10, 255, 200, 200, 200, 255]);
}

#[test]
fn frames_are_normalized_by_color_type() {
    let frame = |color_code, bit_depth, bytes: Vec<u8>| PngFrame {
        width: 1,
        height: 1,
        color_code,
        bit_depth,
        bytes,
    };
    assert_eq!(normalize_png_frame_to_rgba8(&frame(2, 8, vec![1, 2, 3])).unwrap(), vec![1, 2, 3, 255]);
    assert_eq!(normalize_png_frame_to_rgba8(&frame(4, 8, vec![9, 7])).unwrap(), vec![9, 9, 9, 7]);
    assert_eq!(normalize_png_frame_to_rgba8(&frame(6, 8, vec![1, 2, 3, 4])).unwrap(), vec![1, 2, 3, 4]);
    assert_eq!(
        normalize_png_frame_to_rgba8(&frame(0, 16, vec![1])).unwrap_err().message(),
        "unsupported PNG bit depth after normalization: Sixteen"
    );
    assert_eq!(
        normalize_png_frame_to_rgba8(&frame(3, 8, vec![1])).unwrap_err().message(),
        "indexed PNG did not expand to RGB/RGBA during decode"
    );
    assert_eq!(
        normalize_png_frame_to_rgba8(&frame(0, 8, vec![1, 2])).unwrap_err().message(),
        "decoded PNG size mismatch: expected 4 RGBA bytes, got 8"
    );
}
