use vstd::prelude::*;

use crate::decimal::{decimal, decimal_string};
use crate::framebuffer::RasterView;

verus! {

/// An immutable RGBA8 image, four bytes per pixel in row-major order.
#[derive(Debug, PartialEq, Eq)]
pub struct Image {
    width: u32,
    height: u32,
    rgba8: Vec<u8>,
}

/// A rectangle of source pixels inside an image.
#[derive(Debug, Clone, Copy, PartialEq, Eq, Structural)]
pub struct ImageRegion {
    pub x: u32,
    pub y: u32,
    pub width: u32,
    pub height: u32,
}

/// Why an image could not be built or decoded.
#[derive(Debug, PartialEq, Eq)]
pub struct ImageError {
    message: String,
}

impl Clone for ImageError {
    fn clone(&self) -> (copy: Self)
        ensures
            copy@ == self@,
    {
        ImageError { message: self.message.clone() }
    }
}

impl View for ImageError {
    type V = Seq<char>;

    closed spec fn view(&self) -> Seq<char> {
        self.message@
    }
}

impl ImageError {
    pub(crate) fn from_string(message: String) -> (error: Self)
        ensures
            error@ == message@,
    {
        ImageError { message }
    }

    pub(crate) fn from_str(message: &str) -> (error: Self)
        ensures
            error@ == message@,
    {
        ImageError { message: String::from_str(message) }
    }

    /// The human-readable description of the failure.
    pub fn message(&self) -> (message: &str)
        ensures
            message@ == self@,
    {
        self.message.as_str()
    }
}

impl ImageRegion {
    pub fn new(x: u32, y: u32, width: u32, height: u32) -> (region: Self)
        ensures
            region == (ImageRegion { x, y, width, height }),
    {
        ImageRegion { x, y, width, height }
    }
}

/// The message of the error that `pixel_len` reports, if any.
pub open spec fn pixel_len_error(width: int, height: int) -> Option<Seq<char>> {
    if width * height > u32::MAX {
        Some("image dimensions overflow"@)
    } else if width * height * 4 > u32::MAX {
        Some("image byte length overflow"@)
    } else {
        None
    }
}

/// The error message of `Image::from_rgba8` for a buffer of `len` bytes, if any.
pub open spec fn from_rgba8_error(width: int, height: int, len: int) -> Option<Seq<char>> {
    match pixel_len_error(width, height) {
        Some(message) => Some(message),
        None => if len != width * height * 4 {
            Some(
                "RGBA buffer length mismatch: expected "@ + decimal((width * height * 4) as nat)
                    + " bytes, got "@ + decimal(len as nat),
            )
        } else {
            None
        },
    }
}

/// Byte length of a `width` x `height` RGBA8 image, refused when the pixel count or the
/// byte count does not fit in `u32`.
pub(crate) fn pixel_len(width: u32, height: u32) -> (len: Result<usize, ImageError>)
    ensures
        match len {
            Ok(n) => pixel_len_error(width as int, height as int) is None && n == width * height
                * 4,
            Err(e) => pixel_len_error(width as int, height as int) == Some(e@),
        },
{
    let pixels = match width.checked_mul(height) {
        Some(pixels) => pixels,
        None => return Err(ImageError::from_str("image dimensions overflow")),
    };
    match pixels.checked_mul(4) {
        Some(len) => Ok(len as usize),
        None => Err(ImageError::from_str("image byte length overflow")),
    }
}

impl Clone for Image {
    fn clone(&self) -> (copy: Self)
        ensures
            copy@ == self@,
    {
        proof {
            use_type_invariant(self);
        }
        let rgba8 = self.rgba8.clone();
        assert(rgba8@ == self.rgba8@);
        Image { width: self.width, height: self.height, rgba8 }
    }
}

impl View for Image {
    type V = RasterView;

    closed spec fn view(&self) -> RasterView {
        RasterView { width: self.width as nat, height: self.height as nat, bytes: self.rgba8@ }
    }
}

impl Image {
    #[verifier::type_invariant]
    spec fn inv(self) -> bool {
        &&& self.rgba8@.len() == self.width * self.height * 4
        &&& self.width * self.height * 4 <= u32::MAX
    }

    /// Wraps an RGBA8 buffer, refusing dimensions whose byte length does not fit in `u32`
    /// and buffers whose length does not match the dimensions.
    pub fn from_rgba8(width: u32, height: u32, rgba8: Vec<u8>) -> (image: Result<Image, ImageError>)
        ensures
            image is Ok <==> from_rgba8_error(width as int, height as int, rgba8@.len() as int) is None,
            image matches Ok(img) ==> img@ == (RasterView {
                width: width as nat,
                height: height as nat,
                bytes: rgba8@,
            }),
            image matches Err(e) ==> from_rgba8_error(width as int, height as int, rgba8@.len() as int)
                == Some(e@),
    {
        let expected_len = match pixel_len(width, height) {
            Ok(len) => len,
            Err(error) => return Err(error),
        };
        if rgba8.len() != expected_len {
            let mut message = String::from_str("RGBA buffer length mismatch: expected ");
            message.append(decimal_string(expected_len as u64).as_str());
            message.append(" bytes, got ");
            message.append(decimal_string(rgba8.len() as u64).as_str());
            return Err(ImageError::from_string(message));
        }
        Ok(Image { width, height, rgba8 })
    }

    pub fn width(&self) -> (width: u32)
        ensures
            width == self@.width,
    {
        self.width
    }

    pub fn height(&self) -> (height: u32)
        ensures
            height == self@.height,
    {
        self.height
    }

    pub fn as_rgba8(&self) -> (bytes: &[u8])
        ensures
            bytes@ == self@.bytes,
            bytes@.len() == self@.width * self@.height * 4,
            self@.width * self@.height * 4 <= u32::MAX,
    {
        proof {
            use_type_invariant(self);
        }
        self.rgba8.as_slice()
    }
}

/// One decoded PNG frame: its extent, the PNG color type and bit depth codes of its
/// samples, and the samples, row by row.
#[derive(Debug, PartialEq, Eq)]
pub struct PngFrame {
    pub width: u32,
    pub height: u32,
    /// 0 grayscale, 2 RGB, 3 indexed, 4 grayscale with alpha, 6 RGBA.
    pub color_code: u8,
    /// Bits per sample: 1, 2, 4, 8 or 16.
    pub bit_depth: u8,
    pub bytes: Vec<u8>,
}

/// Abstract contents of a decoded PNG frame.
pub struct PngFrameView {
    pub width: u32,
    pub height: u32,
    pub color_code: u8,
    pub bit_depth: u8,
    pub bytes: Seq<u8>,
}

impl View for PngFrame {
    type V = PngFrameView;

    open spec fn view(&self) -> PngFrameView {
        PngFrameView {
            width: self.width,
            height: self.height,
            color_code: self.color_code,
            bit_depth: self.bit_depth,
            bytes: self.bytes@,
        }
    }
}

/// Why the PNG decoder produced no frame.
#[derive(Debug)]
pub enum PngDecodeError {
    /// The decoder refused the data; the text is the decoder's own description.
    Decoding(String),
    /// The decoded frame would not fit in memory.
    BufferTooLarge,
}

/// What the PNG decoder, set to expand every image to 8-bit samples, makes of `bytes`:
/// the first frame, or its error description (`None` when the frame would not fit in
/// memory).
pub uninterp spec fn png_decoded(bytes: Seq<u8>) -> Result<PngFrameView, Option<Seq<char>>>;

/// The outcome of a decoding attempt, by views.
pub open spec fn decoded_view(frame: &Result<PngFrame, PngDecodeError>) -> Result<
    PngFrameView,
    Option<Seq<char>>,
> {
    match frame {
        Ok(f) => Ok(f@),
        Err(PngDecodeError::Decoding(message)) => Err(Some(message@)),
        Err(PngDecodeError::BufferTooLarge) => Err(None),
    }
}

/// Decodes the first frame of a PNG file with `png::Decoder`, with the transformations of
/// `png::Transformations::normalize_to_color8`. The result is named `png_decoded`; the
/// color type and bit depth are passed on as their PNG codes.
#[verifier::external_body]
fn decode_png_frame(bytes: &[u8]) -> (frame: Result<PngFrame, PngDecodeError>)
    ensures
        png_decoded(bytes@) == decoded_view(&frame),
        frame matches Ok(f) ==> (f.color_code == 0 || f.color_code == 2 || f.color_code == 3
            || f.color_code == 4 || f.color_code == 6),
        frame matches Ok(f) ==> (f.bit_depth == 1 || f.bit_depth == 2 || f.bit_depth == 4
            || f.bit_depth == 8 || f.bit_depth == 16),
{
    let mut decoder = png::Decoder::new(std::io::Cursor::new(bytes));
    decoder.set_transformations(png::Transformations::normalize_to_color8());
    let mut reader = decoder.read_info().map_err(|e| PngDecodeError::Decoding(e.to_string()))?;
    let size = reader.output_buffer_size().ok_or(PngDecodeError::BufferTooLarge)?;
    let mut output = vec![0; size];
    let info = reader.next_frame(&mut output).map_err(|e| PngDecodeError::Decoding(e.to_string()))?;
    output.truncate(info.buffer_size());
    let (color_code, bit_depth) = (info.color_type as u8, info.bit_depth as u8);
    Ok(PngFrame { width: info.width, height: info.height, color_code, bit_depth, bytes: output })
}

/// The name of a PNG bit depth.
pub open spec fn bit_depth_name(bit_depth: u8) -> Seq<char> {
    if bit_depth == 1 {
        "One"@
    } else if bit_depth == 2 {
        "Two"@
    } else if bit_depth == 4 {
        "Four"@
    } else if bit_depth == 8 {
        "Eight"@
    } else {
        "Sixteen"@
    }
}

/// RGB samples with an opaque alpha added to each complete pixel.
pub open spec fn rgb_to_rgba(bytes: Seq<u8>) -> Seq<u8> {
    Seq::new(
        ((bytes.len() / 3) * 4) as nat,
        |i: int|
            if i % 4 == 3 {
                255u8
            } else {
                bytes[(i / 4) * 3 + i % 4]
            },
    )
}

/// Gray samples spread over red, green and blue with an opaque alpha.
pub open spec fn gray_to_rgba(bytes: Seq<u8>) -> Seq<u8> {
    Seq::new(
        (bytes.len() * 4) as nat,
        |i: int|
            if i % 4 == 3 {
                255u8
            } else {
                bytes[i / 4]
            },
    )
}

/// Gray and alpha samples spread over red, green and blue, keeping the alpha, for each
/// complete pixel.
pub open spec fn gray_alpha_to_rgba(bytes: Seq<u8>) -> Seq<u8> {
    Seq::new(
        ((bytes.len() / 2) * 4) as nat,
        |i: int|
            if i % 4 == 3 {
                bytes[(i / 4) * 2 + 1]
            } else {
                bytes[(i / 4) * 2]
            },
    )
}

/// The RGBA8 bytes of a decoded frame, or the description of why it has none.
pub open spec fn normalized_rgba(frame: PngFrameView) -> Result<Seq<u8>, Seq<char>> {
    if frame.bit_depth != 8 {
        Err("unsupported PNG bit depth after normalization: "@ + bit_depth_name(frame.bit_depth))
    } else if frame.color_code == 3 {
        Err("indexed PNG did not expand to RGB/RGBA during decode"@)
    } else {
        let rgba = if frame.color_code == 6 {
            frame.bytes
        } else if frame.color_code == 2 {
            rgb_to_rgba(frame.bytes)
        } else if frame.color_code == 0 {
            gray_to_rgba(frame.bytes)
        } else {
            gray_alpha_to_rgba(frame.bytes)
        };
        match pixel_len_error(frame.width as int, frame.height as int) {
            Some(message) => Err(message),
            None => if rgba.len() != frame.width * frame.height * 4 {
                Err(
                    "decoded PNG size mismatch: expected "@ + decimal(
                        (frame.width * frame.height * 4) as nat,
                    ) + " RGBA bytes, got "@ + decimal(rgba.len()),
                )
            } else {
                Ok(rgba)
            },
        }
    }
}

fn bit_depth_text(bit_depth: u8) -> (text: &'static str)
    ensures
        text@ == bit_depth_name(bit_depth),
{
    if bit_depth == 1 {
        "One"
    } else if bit_depth == 2 {
        "Two"
    } else if bit_depth == 4 {
        "Four"
    } else if bit_depth == 8 {
        "Eight"
    } else {
        "Sixteen"
    }
}

/// Converts the samples of a decoded frame to RGBA8.
pub fn normalize_png_frame_to_rgba8(frame: &PngFrame) -> (rgba: Result<Vec<u8>, ImageError>)
    requires
        frame.color_code == 0 || frame.color_code == 2 || frame.color_code == 3 || frame.color_code
            == 4 || frame.color_code == 6,
    ensures
        match rgba {
            Ok(bytes) => normalized_rgba(frame@) == Ok::<Seq<u8>, Seq<char>>(bytes@),
            Err(e) => normalized_rgba(frame@) == Err::<Seq<u8>, Seq<char>>(e@),
        },
{
    if frame.bit_depth != 8 {
        let mut message = String::from_str("unsupported PNG bit depth after normalization: ");
        message.append(bit_depth_text(frame.bit_depth));
        return Err(ImageError::from_string(message));
    }
    if frame.color_code == 3 {
        return Err(ImageError::from_str("indexed PNG did not expand to RGB/RGBA during decode"));
    }
    let bytes = &frame.bytes;
    let total = bytes.len();
    let mut rgba: Vec<u8> = Vec::new();
    if frame.color_code == 6 {
        let mut i: usize = 0;
        while i < bytes.len()
            invariant
                i <= bytes@.len(),
                rgba@ == bytes@.take(i as int),
            decreases bytes@.len() - i,
        {
            rgba.push(bytes[i]);
            i = i + 1;
            assert(rgba@ =~= bytes@.take(i as int));
        }
        assert(bytes@.take(bytes@.len() as int) =~= bytes@);
    } else if frame.color_code == 2 {
        let pixels = bytes.len() / 3;
        let mut p: usize = 0;
        while p < pixels
            invariant
                p <= pixels,
                pixels == bytes@.len() / 3,
                total == bytes@.len(),
                rgba@.len() == p * 4,
                forall|k: int| 0 <= k < p * 4 ==> #[trigger] rgba@[k] == rgb_to_rgba(bytes@)[k],
            decreases pixels - p,
        {
            assert(p * 3 + 2 < bytes@.len()) by (nonlinear_arith)
                requires
                    p < pixels,
                    pixels == bytes@.len() / 3,
            ;
            let base = p * 3;
            let ghost before = rgba@;
            rgba.push(bytes[base]);
            rgba.push(bytes[base + 1]);
            rgba.push(bytes[base + 2]);
            rgba.push(255);
            assert forall|k: int| 0 <= k < (p + 1) * 4 implies #[trigger] rgba@[k] == rgb_to_rgba(
                bytes@,
            )[k] by {
                if k >= p * 4 {
                    assert(k / 4 == p);
                } else {
                    assert(rgba@[k] == before[k]);
                }
            }
            p = p + 1;
        }
        assert(rgba@ =~= rgb_to_rgba(bytes@));
    } else if frame.color_code == 0 {
        let mut p: usize = 0;
        while p < bytes.len()
            invariant
                p <= bytes@.len(),
                rgba@.len() == p * 4,
                forall|k: int| 0 <= k < p * 4 ==> #[trigger] rgba@[k] == gray_to_rgba(bytes@)[k],
            decreases bytes@.len() - p,
        {
            let value = bytes[p];
            let ghost before = rgba@;
            rgba.push(value);
            rgba.push(value);
            rgba.push(value);
            rgba.push(255);
            assert forall|k: int| 0 <= k < (p + 1) * 4 implies #[trigger] rgba@[k] == gray_to_rgba(
                bytes@,
            )[k] by {
                if k >= p * 4 {
                    assert(k / 4 == p);
                } else {
                    assert(rgba@[k] == before[k]);
                }
            }
            p = p + 1;
        }
        assert(rgba@ =~= gray_to_rgba(bytes@));
    } else {
        let pixels = bytes.len() / 2;
        let mut p: usize = 0;
        while p < pixels
            invariant
                p <= pixels,
                pixels == bytes@.len() / 2,
                total == bytes@.len(),
                rgba@.len() == p * 4,
                forall|k: int| 0 <= k < p * 4 ==> #[trigger] rgba@[k] == gray_alpha_to_rgba(bytes@)[k],
            decreases pixels - p,
        {
            assert(p * 2 + 1 < bytes@.len()) by (nonlinear_arith)
                requires
                    p < pixels,
                    pixels == bytes@.len() / 2,
            ;
            let base = p * 2;
            let gray = bytes[base];
            let alpha = bytes[base + 1];
            let ghost before = rgba@;
            rgba.push(gray);
            rgba.push(gray);
            rgba.push(gray);
            rgba.push(alpha);
            assert forall|k: int| 0 <= k < (p + 1) * 4 implies #[trigger] rgba@[k]
                == gray_alpha_to_rgba(bytes@)[k] by {
                if k >= p * 4 {
                    assert(k / 4 == p);
                } else {
                    assert(rgba@[k] == before[k]);
                }
            }
            p = p + 1;
        }
        assert(rgba@ =~= gray_alpha_to_rgba(bytes@));
    }
    let expected_len = match pixel_len(frame.width, frame.height) {
        Ok(len) => len,
        Err(error) => return Err(error),
    };
    if rgba.len() != expected_len {
        let mut message = String::from_str("decoded PNG size mismatch: expected ");
        message.append(decimal_string(expected_len as u64).as_str());
        message.append(" RGBA bytes, got ");
        message.append(decimal_string(rgba.len() as u64).as_str());
        return Err(ImageError::from_string(message));
    }
    Ok(rgba)
}

/// The image a decoding attempt gives, or the description of why there is none.
pub open spec fn png_image(decoded: Result<PngFrameView, Option<Seq<char>>>) -> Result<RasterView, Seq<char>> {
    match decoded {
        Err(Some(message)) => Err("PNG decode failed: "@ + message),
        Err(None) => Err("PNG output buffer would exceed decoder limits"@),
        Ok(frame) => match normalized_rgba(frame) {
            Err(message) => Err(message),
            Ok(rgba) => match from_rgba8_error(frame.width as int, frame.height as int, rgba.len() as int) {
                Some(message) => Err(message),
                None => Ok(RasterView { width: frame.width as nat, height: frame.height as nat, bytes: rgba }),
            },
        },
    }
}

/// An image result by views.
pub open spec fn image_result_view(image: &Result<Image, ImageError>) -> Result<RasterView, Seq<char>> {
    match image {
        Ok(img) => Ok(img@),
        Err(e) => Err(e@),
    }
}

/// Builds the image of a decoding attempt.
pub fn image_from_png_frame(decoded: Result<PngFrame, PngDecodeError>) -> (image: Result<Image, ImageError>)
    requires
        decoded matches Ok(f) ==> (f.color_code == 0 || f.color_code == 2 || f.color_code == 3
            || f.color_code == 4 || f.color_code == 6),
    ensures
        image_result_view(&image) == png_image(decoded_view(&decoded)),
{
    match decoded {
        Err(PngDecodeError::Decoding(message)) => {
            let mut text = String::from_str("PNG decode failed: ");
            text.append(message.as_str());
            Err(ImageError::from_string(text))
        },
        Err(PngDecodeError::BufferTooLarge) => Err(
            ImageError::from_str("PNG output buffer would exceed decoder limits"),
        ),
        Ok(frame) => {
            let rgba = match normalize_png_frame_to_rgba8(&frame) {
                Ok(rgba) => rgba,
                Err(error) => return Err(error),
            };
            Image::from_rgba8(frame.width, frame.height, rgba)
        },
    }
}

impl Image {
    /// Decodes a PNG file into an RGBA8 image.
    pub fn decode_png(bytes: &[u8]) -> (image: Result<Image, ImageError>)
        ensures
            image_result_view(&image) == png_image(png_decoded(bytes@)),
    {
        image_from_png_frame(decode_png_frame(bytes))
    }
}

} // verus!
