use vstd::prelude::*;

use ab_glyph::FontArc;

verus! {

#[verifier::external_type_specification]
#[verifier::external_body]
pub struct ExFontArc(FontArc);

/// `FontArc::clone` shares the parsed face; nothing is claimed of the copy.
pub assume_specification[<FontArc as Clone>::clone](font: &FontArc) -> FontArc;

/// Whether `ab_glyph` accepts `bytes` as an owned TrueType/OpenType face.
pub uninterp spec fn font_vec_parses(bytes: Seq<u8>) -> bool;

/// Whether `ab_glyph` accepts `bytes` as a borrowed TrueType/OpenType face.
pub uninterp spec fn font_slice_parses(bytes: Seq<u8>) -> bool;

/// Calls `ab_glyph::FontArc::try_from_vec`. Trusted: that it succeeds exactly when the
/// crate accepts the bytes as a face, which depends on the bytes alone (the crate parses
/// the face at index 0 of the data); the name says nothing more of which data is valid.
#[verifier::external_body]
fn font_arc_from_vec(bytes: Vec<u8>) -> (font: Option<FontArc>)
    ensures
        font is Some <==> font_vec_parses(bytes@),
{
    FontArc::try_from_vec(bytes).ok()
}

/// Calls `ab_glyph::FontArc::try_from_slice`. Trusted: that it succeeds exactly when the
/// crate accepts the bytes as a face, which depends on the bytes alone.
#[verifier::external_body]
fn font_arc_from_slice(bytes: &'static [u8]) -> (font: Option<FontArc>)
    ensures
        font is Some <==> font_slice_parses(bytes@),
{
    FontArc::try_from_slice(bytes).ok()
}

/// Error returned when bytes do not contain a supported TrueType/OpenType face.
#[derive(Clone, Copy, Debug, PartialEq, Eq, Structural)]
pub struct FontFaceError;

impl FontFaceError {
    /// The text shown for this error.
    pub fn message(&self) -> (message: &'static str)
        ensures
            message@ == font_face_error_text(),
    {
        "invalid or unsupported font data"
    }
}

/// The text of a font face error.
pub open spec fn font_face_error_text() -> Seq<char> {
    "invalid or unsupported font data"@
}

/// An authored TrueType/OpenType font owned by the game. Games construct as many faces
/// as they need from embedded bytes and pick one for each draw call.
#[derive(Clone, Debug)]
pub struct FontFace {
    font: FontArc,
}

impl FontFace {
    /// The parsed face.
    pub closed spec fn spec_font(self) -> FontArc {
        self.font
    }

    /// Parses a font from arbitrary bytes, keeping an owned copy of them.
    pub fn from_bytes(bytes: &[u8]) -> (result: Result<Self, FontFaceError>)
        ensures
            result is Ok <==> font_vec_parses(bytes@),
            result matches Err(error) ==> error == FontFaceError,
    {
        match font_arc_from_vec(vstd::slice::slice_to_vec(bytes)) {
            Some(font) => Ok(FontFace { font }),
            None => Err(FontFaceError),
        }
    }

    /// Parses a font from static bytes without copying them.
    pub fn from_static_bytes(bytes: &'static [u8]) -> (result: Result<Self, FontFaceError>)
        ensures
            result is Ok <==> font_slice_parses(bytes@),
            result matches Err(error) ==> error == FontFaceError,
    {
        match font_arc_from_slice(bytes) {
            Some(font) => Ok(FontFace { font }),
            None => Err(FontFaceError),
        }
    }

    /// The parsed face, for measuring and rasterizing text.
    pub fn font(&self) -> (font: &FontArc)
        ensures
            *font == self.spec_font(),
    {
        &self.font
    }
}

/// The position of the first face of a fallback stack that can render a text, given
/// for each face in order whether it can; `None` when none can.
pub fn first_supporting_font(supports: &Vec<bool>) -> (index: Option<usize>)
    ensures
        match index {
            Some(i) => i < supports@.len() && supports@[i as int] && forall|j: int|
                0 <= j < i ==> !#[trigger] supports@[j],
            None => forall|j: int| 0 <= j < supports@.len() ==> !#[trigger] supports@[j],
        },
{
    let mut i: usize = 0;
    while i < supports.len()
        invariant
            i <= supports@.len(),
            forall|j: int| 0 <= j < i ==> !#[trigger] supports@[j],
        decreases supports@.len() - i,
    {
        if supports[i] {
            return Some(i);
        }
        i = i + 1;
    }
    None
}

} // verus!
