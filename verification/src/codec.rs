//! The codec bridge: every call into the outside codec crates lives here,
//! behind a trusted wrapper whose contract the rest of the library builds on.
//!
//! Results that are functions of their arguments alone (an encoding, a decode,
//! a resample) are given uninterpreted names, so the verified operations can
//! state their own results exactly in terms of them.

use vstd::prelude::*;
use base64::Engine;
use image::ImageFormat as RawFormat;
use crate::types::ImageFormat;
use crate::error::AppError;

verus! {

/// The base64 text that the standard engine produces for `bytes`.
pub uninterp spec fn b64_of(bytes: Seq<u8>) -> Seq<char>;

/// What the standard base64 engine decodes `text` to: the bytes, or `None`
/// when the text is not valid base64.
pub uninterp spec fn b64_decoded_of(text: Seq<char>) -> Option<Seq<u8>>;

/// What the image codec decodes `bytes` to: width, height, the RGBA8 pixel
/// buffer, and whether the source colour type carries an alpha channel;
/// `None` when the bytes parse as no recognised image.
pub uninterp spec fn decoded_of(bytes: Seq<u8>) -> Option<(u32, u32, Seq<u8>, bool)>;

/// The bytes that encoding a `width` by `height` RGBA8 buffer in `format`
/// produces, or `None` when the encoder rejects the input.
pub uninterp spec fn encoding_of(
    format: ImageFormat,
    width: u32,
    height: u32,
    data: Seq<u8>,
) -> Option<Seq<u8>>;

/// The bytes that the JPEG encoder at `quality` produces for a `width` by
/// `height` RGBA8 buffer, or `None` when it rejects the input.
pub uninterp spec fn jpeg_encoding_of(
    quality: u8,
    width: u32,
    height: u32,
    data: Seq<u8>,
) -> Option<Seq<u8>>;

/// The RGBA8 buffer that Lanczos3 resampling of a `width` by `height` buffer
/// to `nwidth` by `nheight` produces.
pub uninterp spec fn resampled_of(
    width: u32,
    height: u32,
    data: Seq<u8>,
    nwidth: u32,
    nheight: u32,
) -> Seq<u8>;

/// The format that the codec guesses from a byte buffer's magic numbers,
/// restricted to the formats this engine knows.
pub uninterp spec fn guessed_format_of(bytes: Seq<u8>) -> Option<ImageFormat>;

/// A decoded image: an RGBA8 pixel buffer with its dimensions, plus whether
/// the source colour type had an alpha channel at all.
pub(crate) struct DecodedImage {
    /// Width in pixels.
    pub width: u32,
    /// Height in pixels.
    pub height: u32,
    /// Whether the source colour type carries an alpha channel.
    pub channel_alpha: bool,
    /// The pixels, 4 bytes each, row-major.
    pub data: Vec<u8>,
}

/// Relies on `base64::engine::general_purpose::STANDARD.encode`: the text is a
/// function of the bytes alone.
#[verifier::external_body]
pub(crate) fn base64_encode(bytes: &Vec<u8>) -> (r: String)
    requires
        bytes@.len() <= usize::MAX / 16,
    ensures
        r@ == b64_of(bytes@),
{
    base64::engine::general_purpose::STANDARD.encode(bytes)
}

/// Relies on `base64::engine::general_purpose::STANDARD.decode`: the result is
/// a function of the text alone, and decoding fails exactly on malformed
/// base64.
#[verifier::external_body]
pub(crate) fn base64_decode(text: &str) -> (r: Result<Vec<u8>, AppError>)
    ensures
        match r {
            Ok(b) => b64_decoded_of(text@) == Some(b@),
            Err(e) => b64_decoded_of(text@) is None && e is InvalidImageData,
        },
{
    base64::engine::general_purpose::STANDARD.decode(text.as_bytes()).map_err(
        |e| AppError::InvalidImageData(format!("Failed to decode Base64: {}", e)),
    )
}

/// Relies on `image::load_from_memory`, `DynamicImage::color` and
/// `DynamicImage::to_rgba8`: the decode is a function of the bytes alone, the
/// RGBA8 buffer holds 4 bytes per pixel, and `ColorType::has_alpha` reports
/// whether the source colour type has an alpha channel.
#[verifier::external_body]
pub(crate) fn decode_image(bytes: &Vec<u8>) -> (r: Result<DecodedImage, AppError>)
    ensures
        match r {
            Ok(d) => {
                &&& decoded_of(bytes@) == Some((d.width, d.height, d.data@, d.channel_alpha))
                &&& d.data@.len() == 4 * d.width * d.height
            },
            Err(e) => decoded_of(bytes@) is None && e is ImageError,
        },
{
    match image::load_from_memory(bytes.as_slice()) {
        Ok(img) => {
            let channel_alpha = img.color().has_alpha();
            let rgba = img.to_rgba8();
            let (width, height) = (rgba.width(), rgba.height());
            Ok(DecodedImage { width, height, channel_alpha, data: rgba.into_raw() })
        },
        Err(e) => Err(AppError::ImageError(format!("{}", e))),
    }
}

/// Relies on `DynamicImage::write_to`: the encoding is a function of format
/// and pixels alone, and the encoder returns an error rather than panicking
/// when it cannot represent the image (for example an oversized ICO).
#[verifier::external_body]
pub(crate) fn encode_image(
    format: ImageFormat,
    width: u32,
    height: u32,
    data: Vec<u8>,
) -> (r: Result<Vec<u8>, AppError>)
    requires
        format.spec_encodable(),
        data@.len() == 4 * width * height,
        width > 0,
        height > 0,
    ensures
        match r {
            Ok(b) => encoding_of(format, width, height, data@) == Some(b@),
            Err(e) => encoding_of(format, width, height, data@) is None && e is ImageError,
        },
{
    let fmt = match format {
        ImageFormat::PNG => RawFormat::Png, ImageFormat::JPEG => RawFormat::Jpeg,
        ImageFormat::GIF => RawFormat::Gif, ImageFormat::BMP => RawFormat::Bmp,
        ImageFormat::WEBP => RawFormat::WebP, ImageFormat::TIFF => RawFormat::Tiff,
        // SVG and HEIC are excluded by the precondition
        ImageFormat::ICO => RawFormat::Ico, _ => RawFormat::Avif,
    };
    let buf = image::RgbaImage::from_raw(width, height, data).unwrap();
    let mut out: Vec<u8> = Vec::new();
    match image::DynamicImage::ImageRgba8(buf).write_to(&mut std::io::Cursor::new(&mut out), fmt) {
        Ok(()) => Ok(out),
        Err(e) => Err(AppError::ImageError(format!("{}", e))),
    }
}

/// Relies on `image::codecs::jpeg::JpegEncoder`, built with
/// `new_with_quality`: the encoding is a function of quality and pixels
/// alone, and dimension problems surface as errors, not panics.
#[verifier::external_body]
pub(crate) fn encode_jpeg(
    quality: u8,
    width: u32,
    height: u32,
    data: Vec<u8>,
) -> (r: Result<Vec<u8>, AppError>)
    requires
        1 <= quality <= 100,
        data@.len() == 4 * width * height,
        width > 0,
        height > 0,
    ensures
        match r {
            Ok(b) => jpeg_encoding_of(quality, width, height, data@) == Some(b@),
            Err(e) => jpeg_encoding_of(quality, width, height, data@) is None
                && e is ImageError,
        },
{
    let img = image::DynamicImage::ImageRgba8(
        image::RgbaImage::from_raw(width, height, data).unwrap(),
    );
    let mut out: Vec<u8> = Vec::new();
    let mut cursor = std::io::Cursor::new(&mut out);
    let mut encoder = image::codecs::jpeg::JpegEncoder::new_with_quality(&mut cursor, quality);
    match encoder.encode_image(&img) {
        Ok(()) => Ok(out),
        Err(e) => Err(AppError::ImageError(format!("{}", e))),
    }
}

/// Relies on `image::imageops::resize` with the Lanczos3 filter: the result is
/// an `nwidth` by `nheight` RGBA8 buffer that is a function of the pixels
/// alone, and a resize to the source's own size copies the buffer unchanged.
#[verifier::external_body]
pub(crate) fn resize_rgba(
    width: u32,
    height: u32,
    data: Vec<u8>,
    nwidth: u32,
    nheight: u32,
) -> (r: Vec<u8>)
    requires
        data@.len() == 4 * width * height,
        width > 0,
        height > 0,
        nwidth > 0,
        nheight > 0,
        4 * (nwidth as nat) * (nheight as nat) <= usize::MAX,
    ensures
        r@ == resampled_of(width, height, data@, nwidth, nheight),
        r@.len() == 4 * nwidth * nheight,
        (nwidth == width && nheight == height) ==> r@ == data@,
{
    let buf = image::RgbaImage::from_raw(width, height, data).unwrap();
    image::imageops::resize(&buf, nwidth, nheight, image::imageops::FilterType::Lanczos3)
        .into_raw()
}

/// Relies on `image::guess_format`: the guess reads magic numbers, a function
/// of the bytes alone; formats this engine does not know map to `None`.
#[verifier::external_body]
pub(crate) fn guess_format(bytes: &Vec<u8>) -> (r: Option<ImageFormat>)
    ensures
        r == guessed_format_of(bytes@),
{
    match image::guess_format(bytes.as_slice()) {
        Ok(image::ImageFormat::Png) => Some(ImageFormat::PNG),
        Ok(image::ImageFormat::Jpeg) => Some(ImageFormat::JPEG),
        Ok(image::ImageFormat::Gif) => Some(ImageFormat::GIF),
        Ok(image::ImageFormat::Bmp) => Some(ImageFormat::BMP),
        Ok(image::ImageFormat::WebP) => Some(ImageFormat::WEBP),
        Ok(image::ImageFormat::Tiff) => Some(ImageFormat::TIFF),
        Ok(image::ImageFormat::Ico) => Some(ImageFormat::ICO),
        Ok(image::ImageFormat::Avif) => Some(ImageFormat::AVIF),
        _ => None,
    }
}

} // verus!
