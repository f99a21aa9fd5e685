use gotoo_pixel_engine::{first_supporting_font, FontFace, FontFaceError};

/// The smallest face the parser accepts: a table directory with `head`, `hhea` and
/// `maxp` tables and one glyph.
fn minimal_face() -> Vec<u8> {
    let mut bytes = vec![0x00, 0x01, 0x00, 0x00, 0x00, 0x03, 0x00, 0x20, 0x00, 0x01, 0x00, 0x10];
    let head_offset: u32 = 12 + 3 * 16;
    let hhea_offset: u32 = head_offset + 56;
    let maxp_offset: u32 = hhea_offset + 36;
    for (tag, offset, length) in [
        (*b"head", head_offset, 54u32),
        (*b"hhea", hhea_offset, 36u32),
        (*b"maxp", maxp_offset, 6u32),
    ] {
        bytes.extend_from_slice(&tag);
        bytes.extend_from_slice(&[0, 0, 0, 0]);
        bytes.extend_from_slice(&offset.to_be_bytes());
        bytes.extend_from_slice(&length.to_be_bytes());
    }
    let mut head = vec![0u8; 56];
    head[0..4].copy_from_slice(&[0x00, 0x01, 0x00, 0x00]);
    head[18..20].copy_from_slice(&1000u16.to_be_bytes());
    bytes.extend_from_slice(&head);
    let mut hhea = vec![0u8; 36];
    hhea[0..4].copy_from_slice(&[0x00, 0x01, 0x00, 0x00]);
    hhea[34..36].copy_from_slice(&1u16.to_be_bytes());
    bytes.extend_from_slice(&hhea);
    bytes.extend_from_slice(&[0x00, 0x00, 0x50, 0x00, 0x00, 0x01]);
    bytes
}

#[test]
fn rejects_invalid_font_bytes() {
    assert_eq!(
        FontFace::from_bytes(b"not a font").unwrap_err(),
        FontFaceError
    );
}

#[test]
fn rejects_invalid_static_font_bytes() {
    assert_eq!(FontFace::from_static_bytes(b"").unwrap_err(), FontFaceError);
}

#[test]
fn accepts_a_minimal_face() {
    let bytes = minimal_face();
    assert!(FontFace::from_bytes(&bytes).is_ok());
    let leaked: &'static [u8] = Box::leak(bytes.into_boxed_slice());
    assert!(FontFace::from_static_bytes(leaked).is_ok());
}

#[test]
fn a_face_without_its_maxp_table_is_refused() {
    let mut bytes = minimal_face();
    let len = bytes.len();
    bytes.truncate(len - 6);
    assert_eq!(FontFace::from_bytes(&bytes).unwrap_err(), FontFaceError);
}

#[test]
fn font_face_error_has_a_message() {
    assert_eq!(FontFaceError.message(), "invalid or unsupported font data");
}

#[test]
fn the_first_supporting_font_is_chosen() {
    assert_eq!(first_supporting_font(&vec![false, true, true]), Some(1));
    assert_eq!(first_supporting_font(&vec![true]), Some(0));
    assert_eq!(first_supporting_font(&vec![false, false]), None);
    assert_eq!(first_supporting_font(&vec![]), None);
}
