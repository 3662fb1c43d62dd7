//! The editing operations: each decodes the image value, transforms the
//! pixels, re-encodes, and returns a fresh value; the input is never touched.

use vstd::prelude::*;
use vstd::string::StrSliceExecFns;
use crate::types::ImageFormat;
use crate::types::ImageData;
use crate::types::ConversionOptions;
use crate::error::AppError;
use crate::codec::DecodedImage;
use crate::codec::b64_of;
use crate::codec::b64_decoded_of;
use crate::codec::decoded_of;
use crate::codec::encoding_of;
use crate::codec::jpeg_encoding_of;
use crate::codec::resampled_of;
use crate::codec::guessed_format_of;
use crate::codec::base64_encode;
use crate::codec::base64_decode;
use crate::codec::decode_image;
use crate::codec::encode_image;
use crate::codec::encode_jpeg;
use crate::codec::resize_rgba;
use crate::codec::guess_format;
use crate::pixels::spec_has_translucent;
use crate::pixels::spec_cropped;
use crate::pixels::spec_rotated_cw;
use crate::pixels::spec_rotated_ccw;
use crate::pixels::spec_backgrounded;
use crate::pixels::has_translucent;
use crate::pixels::crop_pixels;
use crate::pixels::rotate_cw;
use crate::pixels::rotate_ccw;
use crate::pixels::apply_background;
use crate::geometry::spec_aspect_fit;
use crate::geometry::spec_clamped_rect;
use crate::geometry::calculate_aspect_ratio_dimensions;
use crate::geometry::clamp_crop_rect;
use crate::strings::spec_lower;
use crate::strings::spec_upper;
use crate::strings::spec_rfind;
use crate::strings::spec_updated_path;
use crate::strings::lemma_rfind_range;
use crate::strings::rfind;
use crate::strings::eq_lower;
use crate::strings::eq_upper;
use crate::strings::update_file_extension;
use vstd::string::StringExecFns;

verus! {

/// The largest byte buffer the engine hands to the base64 encoder; above
/// this the encoded length could overflow the address space.
pub const MAX_ENCODE_BYTES: usize = usize::MAX / 16;

/// What the image value's transported data decodes to: first through
/// base64, then through the image codec.
pub open spec fn spec_decoded_data(text: Seq<char>) -> Option<(u32, u32, Seq<u8>, bool)> {
    match b64_decoded_of(text) {
        Some(bytes) => decoded_of(bytes),
        None => None,
    }
}

/// Decodes an image value's base64 text and then its image bytes.
pub(crate) fn decode_image_data(image_data: &ImageData) -> (r: Result<DecodedImage, AppError>)
    ensures
        match r {
            Ok(d) => {
                &&& spec_decoded_data(image_data.data@) == Some(
                    (d.width, d.height, d.data@, d.channel_alpha),
                )
                &&& d.data@.len() == 4 * d.width * d.height
            },
            Err(e) => {
                &&& spec_decoded_data(image_data.data@) is None
                &&& (e is InvalidImageData <==> b64_decoded_of(image_data.data@) is None)
                &&& (e is InvalidImageData || e is ImageError)
            },
        },
{
    let bytes = match base64_decode(image_data.data.as_str()) {
        Ok(b) => b,
        Err(e) => {
            return Err(e);
        },
    };
    decode_image(&bytes)
}

/// The target dimensions of a resize: the aspect-preserving fit when asked
/// for, the requested dimensions otherwise.
pub open spec fn spec_resize_target(image: ImageData, width: u32, height: u32, keep: bool) -> (
    int,
    int,
) {
    if keep {
        spec_aspect_fit(image.width as int, image.height as int, width as int, height as int)
    } else {
        (width as int, height as int)
    }
}

/// Resizes the image to `(width, height)`; with `keep_aspect_ratio` the
/// dimensions actually used are the aspect-preserving fit computed from the
/// image value's metadata. The source format is kept and the transparency
/// flag is recomputed from the resampled pixels.
pub fn resize_image(
    image_data: &ImageData,
    width: u32,
    height: u32,
    keep_aspect_ratio: bool,
) -> (r: Result<ImageData, AppError>)
    ensures
        ({
            let dec = spec_decoded_data(image_data.data@);
            let target = spec_resize_target(*image_data, width, height, keep_aspect_ratio);
            match r {
                Ok(out) => {
                    &&& width > 0 && height > 0
                    &&& dec matches Some((dw, dh, ddata, dalpha))
                    &&& dw > 0 && dh > 0
                    &&& out.width == target.0 && out.height == target.1
                    &&& 4 * target.0 * target.1 <= usize::MAX
                    &&& ({
                        let rd = resampled_of(dw, dh, ddata, out.width, out.height);
                        &&& image_data.format.spec_encodable()
                        &&& out.has_alpha == (dalpha && spec_has_translucent(rd))
                        &&& encoding_of(image_data.format, out.width, out.height, rd)
                            matches Some(enc)
                        &&& enc.len() <= MAX_ENCODE_BYTES
                        &&& out.data@ == b64_of(enc)
                    })
                    &&& out.path@ == image_data.path@
                    &&& out.format == image_data.format
                },
                Err(e) => {
                    if width == 0 || height == 0 {
                        e is InvalidParameters
                    } else if b64_decoded_of(image_data.data@) is None {
                        e is InvalidImageData
                    } else if dec is None {
                        e is ImageError
                    } else {
                        let (dw, dh, ddata, dalpha) = dec->0;
                        if dw == 0 || dh == 0 {
                            e is ImageError
                        } else if 4 * target.0 * target.1 > usize::MAX {
                            e is OperationFailed
                        } else if !image_data.format.spec_encodable() {
                            e is UnsupportedFormat
                        } else {
                            let rd = resampled_of(dw, dh, ddata, target.0 as u32, target.1 as u32);
                            match encoding_of(
                                image_data.format, target.0 as u32, target.1 as u32, rd,
                            ) {
                                Some(enc) => e is OperationFailed && enc.len()
                                    > MAX_ENCODE_BYTES,
                                None => e is ImageError,
                            }
                        }
                    }
                },
            }
        }),
{
    if width == 0 || height == 0 {
        return Err(AppError::InvalidParameters(
            String::from_str("Width and height must be positive integers"),
        ));
    }
    let dec = match decode_image_data(image_data) {
        Ok(d) => d,
        Err(e) => {
            return Err(e);
        },
    };
    if dec.width == 0 || dec.height == 0 {
        return Err(AppError::ImageError(String::from_str("decoded image is empty")));
    }
    let (target_width, target_height) = if keep_aspect_ratio {
        calculate_aspect_ratio_dimensions(image_data.width, image_data.height, width, height)
    } else {
        (width, height)
    };
    proof {
        assert(0 <= 4 * (target_width as int) * (target_height as int) < u128::MAX)
            by (nonlinear_arith)
            requires target_width <= u32::MAX, target_height <= u32::MAX;
    }
    if 4u128 * (target_width as u128) * (target_height as u128) > (usize::MAX as u128) {
        return Err(AppError::OperationFailed(String::from_str("target image is too large")));
    }
    if let Err(e) = crate::error::validate_encodable(&image_data.format) {
        return Err(e);
    }
    let resized = resize_rgba(dec.width, dec.height, dec.data, target_width, target_height);
    let has_alpha = dec.channel_alpha && has_translucent(&resized);
    let encoded = match encode_image(image_data.format, target_width, target_height, resized) {
        Ok(b) => b,
        Err(e) => {
            return Err(e);
        },
    };
    if encoded.len() > MAX_ENCODE_BYTES {
        return Err(AppError::OperationFailed(String::from_str("encoded image is too large")));
    }
    let base64_data = base64_encode(&encoded);
    Ok(ImageData {
        path: image_data.path.clone(),
        width: target_width,
        height: target_height,
        format: image_data.format,
        data: base64_data,
        has_alpha,
    })
}

/// Crops the image to the rectangle at `(x, y)` of size `width` by
/// `height`, clamped to the image (per its metadata); zero sizes are
/// rejected, out-of-range rectangles are clamped, never rejected.
pub fn crop_image(image_data: &ImageData, x: u32, y: u32, width: u32, height: u32) -> (r: Result<
    ImageData,
    AppError,
>)
    ensures
        ({
            let dec = spec_decoded_data(image_data.data@);
            let rect = spec_clamped_rect(
                image_data.width as int,
                image_data.height as int,
                x as int,
                y as int,
                width as int,
                height as int,
            );
            match r {
                Ok(out) => {
                    &&& width > 0 && height > 0
                    &&& dec matches Some((dw, dh, ddata, dalpha))
                    &&& dw > 0 && dh > 0
                    &&& out.width == rect.2 && out.height == rect.3
                    &&& ({
                        let rect2 = spec_clamped_rect(
                            dw as int, dh as int, rect.0, rect.1, rect.2, rect.3,
                        );
                        let cropped = spec_cropped(
                            ddata, dw as int, rect2.0, rect2.1, rect2.2, rect2.3,
                        );
                        &&& image_data.format.spec_encodable()
                        &&& out.has_alpha == (dalpha && spec_has_translucent(cropped))
                        &&& encoding_of(
                            image_data.format, rect2.2 as u32, rect2.3 as u32, cropped,
                        ) matches Some(enc)
                        &&& enc.len() <= MAX_ENCODE_BYTES
                        &&& out.data@ == b64_of(enc)
                    })
                    &&& out.path@ == image_data.path@
                    &&& out.format == image_data.format
                },
                Err(e) => {
                    if width == 0 || height == 0 {
                        e is InvalidParameters
                    } else if b64_decoded_of(image_data.data@) is None {
                        e is InvalidImageData
                    } else if dec is None {
                        e is ImageError
                    } else {
                        let (dw, dh, ddata, dalpha) = dec->0;
                        if dw == 0 || dh == 0 {
                            e is ImageError
                        } else if !image_data.format.spec_encodable() {
                            e is UnsupportedFormat
                        } else {
                            let rect2 = spec_clamped_rect(
                                dw as int, dh as int, rect.0, rect.1, rect.2, rect.3,
                            );
                            let cropped = spec_cropped(
                                ddata, dw as int, rect2.0, rect2.1, rect2.2, rect2.3,
                            );
                            match encoding_of(
                                image_data.format, rect2.2 as u32, rect2.3 as u32, cropped,
                            ) {
                                Some(enc) => e is OperationFailed && enc.len()
                                    > MAX_ENCODE_BYTES,
                                None => e is ImageError,
                            }
                        }
                    }
                },
            }
        }),
{
    if width == 0 || height == 0 {
        return Err(AppError::InvalidParameters(
            String::from_str("Width and height must be positive integers"),
        ));
    }
    let (cx, cy, cw, ch) = clamp_crop_rect(image_data.width, image_data.height, x, y, width,
        height);
    let dec = match decode_image_data(image_data) {
        Ok(d) => d,
        Err(e) => {
            return Err(e);
        },
    };
    if dec.width == 0 || dec.height == 0 {
        return Err(AppError::ImageError(String::from_str("decoded image is empty")));
    }
    if let Err(e) = crate::error::validate_encodable(&image_data.format) {
        return Err(e);
    }
    // clamp once more against the decoded buffer's own dimensions
    let (cx2, cy2, cw2, ch2) = clamp_crop_rect(dec.width, dec.height, cx, cy, cw, ch);
    let cropped = crop_pixels(&dec.data, dec.width, dec.height, cx2, cy2, cw2, ch2);
    let has_alpha = dec.channel_alpha && has_translucent(&cropped);
    let encoded = match encode_image(image_data.format, cw2, ch2, cropped) {
        Ok(b) => b,
        Err(e) => {
            return Err(e);
        },
    };
    if encoded.len() > MAX_ENCODE_BYTES {
        return Err(AppError::OperationFailed(String::from_str("encoded image is too large")));
    }
    let base64_data = base64_encode(&encoded);
    Ok(ImageData {
        path: image_data.path.clone(),
        width: cw,
        height: ch,
        format: image_data.format,
        data: base64_data,
        has_alpha,
    })
}

/// Replaces transparent pixels with the opaque colour `(r, g, b)`; only
/// images whose transparency flag is set are accepted, and the result's
/// flag is always cleared.
pub fn set_background(image_data: &ImageData, r: u8, g: u8, b: u8) -> (res: Result<
    ImageData,
    AppError,
>)
    ensures
        ({
            let dec = spec_decoded_data(image_data.data@);
            match res {
                Ok(out) => {
                    &&& image_data.has_alpha
                    &&& dec matches Some((dw, dh, ddata, dalpha))
                    &&& dw > 0 && dh > 0
                    &&& ({
                        let bg = spec_backgrounded(ddata, r, g, b, (dw as int) * (dh as int));
                        &&& image_data.format.spec_encodable()
                        &&& encoding_of(image_data.format, dw, dh, bg) matches Some(enc)
                        &&& enc.len() <= MAX_ENCODE_BYTES
                        &&& out.data@ == b64_of(enc)
                    })
                    &&& out.width == image_data.width && out.height == image_data.height
                    &&& out.has_alpha == false
                    &&& out.path@ == image_data.path@
                    &&& out.format == image_data.format
                },
                Err(e) => {
                    if !image_data.has_alpha {
                        e is InvalidParameters
                    } else if b64_decoded_of(image_data.data@) is None {
                        e is InvalidImageData
                    } else if dec is None {
                        e is ImageError
                    } else {
                        let (dw, dh, ddata, dalpha) = dec->0;
                        if dw == 0 || dh == 0 {
                            e is ImageError
                        } else if !image_data.format.spec_encodable() {
                            e is UnsupportedFormat
                        } else {
                            let bg = spec_backgrounded(ddata, r, g, b, (dw as int) * (dh as int));
                            match encoding_of(image_data.format, dw, dh, bg) {
                                Some(enc) => e is OperationFailed && enc.len()
                                    > MAX_ENCODE_BYTES,
                                None => e is ImageError,
                            }
                        }
                    }
                },
            }
        }),
{
    if !image_data.has_alpha {
        return Err(AppError::InvalidParameters(
            String::from_str(
                "Image does not have transparency. Background setting is only applicable to transparent images.",
            ),
        ));
    }
    let dec = match decode_image_data(image_data) {
        Ok(d) => d,
        Err(e) => {
            return Err(e);
        },
    };
    if dec.width == 0 || dec.height == 0 {
        return Err(AppError::ImageError(String::from_str("decoded image is empty")));
    }
    if let Err(e) = crate::error::validate_encodable(&image_data.format) {
        return Err(e);
    }
    let filled = apply_background(&dec.data, dec.width, dec.height, r, g, b);
    let encoded = match encode_image(image_data.format, dec.width, dec.height, filled) {
        Ok(bts) => bts,
        Err(e) => {
            return Err(e);
        },
    };
    if encoded.len() > MAX_ENCODE_BYTES {
        return Err(AppError::OperationFailed(String::from_str("encoded image is too large")));
    }
    let base64_data = base64_encode(&encoded);
    Ok(ImageData {
        path: image_data.path.clone(),
        width: image_data.width,
        height: image_data.height,
        format: image_data.format,
        data: base64_data,
        has_alpha: false,
    })
}

/// The target format named by a conversion request, matched without regard
/// to case; only formats with an encode path are recognised.
pub open spec fn spec_parse_target_format(s: Seq<char>) -> Option<ImageFormat> {
    let u = spec_upper(s);
    if u == "PNG"@ {
        Some(ImageFormat::PNG)
    } else if u == "JPEG"@ || u == "JPG"@ {
        Some(ImageFormat::JPEG)
    } else if u == "GIF"@ {
        Some(ImageFormat::GIF)
    } else if u == "BMP"@ {
        Some(ImageFormat::BMP)
    } else if u == "WEBP"@ {
        Some(ImageFormat::WEBP)
    } else if u == "TIFF"@ || u == "TIF"@ {
        Some(ImageFormat::TIFF)
    } else if u == "ICO"@ {
        Some(ImageFormat::ICO)
    } else if u == "AVIF"@ {
        Some(ImageFormat::AVIF)
    } else {
        None
    }
}

/// Parses a conversion target format name, case-insensitively.
pub fn parse_target_format(s: &str) -> (r: Option<ImageFormat>)
    ensures
        r == spec_parse_target_format(s@),
{
    if eq_upper(s, "PNG") {
        Some(ImageFormat::PNG)
    } else if eq_upper(s, "JPEG") || eq_upper(s, "JPG") {
        Some(ImageFormat::JPEG)
    } else if eq_upper(s, "GIF") {
        Some(ImageFormat::GIF)
    } else if eq_upper(s, "BMP") {
        Some(ImageFormat::BMP)
    } else if eq_upper(s, "WEBP") {
        Some(ImageFormat::WEBP)
    } else if eq_upper(s, "TIFF") || eq_upper(s, "TIF") {
        Some(ImageFormat::TIFF)
    } else if eq_upper(s, "ICO") {
        Some(ImageFormat::ICO)
    } else if eq_upper(s, "AVIF") {
        Some(ImageFormat::AVIF)
    } else {
        None
    }
}

/// The format that a file extension names, matched without regard to case.
pub open spec fn spec_format_from_ext(e: Seq<char>) -> Option<ImageFormat> {
    let l = spec_lower(e);
    if l == "png"@ {
        Some(ImageFormat::PNG)
    } else if l == "jpg"@ || l == "jpeg"@ {
        Some(ImageFormat::JPEG)
    } else if l == "gif"@ {
        Some(ImageFormat::GIF)
    } else if l == "bmp"@ {
        Some(ImageFormat::BMP)
    } else if l == "webp"@ {
        Some(ImageFormat::WEBP)
    } else if l == "svg"@ {
        Some(ImageFormat::SVG)
    } else if l == "tiff"@ || l == "tif"@ {
        Some(ImageFormat::TIFF)
    } else if l == "ico"@ {
        Some(ImageFormat::ICO)
    } else if l == "heic"@ || l == "heif"@ {
        Some(ImageFormat::HEIC)
    } else if l == "avif"@ {
        Some(ImageFormat::AVIF)
    } else {
        None
    }
}

/// Maps a file extension to the format it names, case-insensitively.
pub fn format_from_ext(e: &str) -> (r: Option<ImageFormat>)
    ensures
        r == spec_format_from_ext(e@),
{
    if eq_lower(e, "png") {
        Some(ImageFormat::PNG)
    } else if eq_lower(e, "jpg") || eq_lower(e, "jpeg") {
        Some(ImageFormat::JPEG)
    } else if eq_lower(e, "gif") {
        Some(ImageFormat::GIF)
    } else if eq_lower(e, "bmp") {
        Some(ImageFormat::BMP)
    } else if eq_lower(e, "webp") {
        Some(ImageFormat::WEBP)
    } else if eq_lower(e, "svg") {
        Some(ImageFormat::SVG)
    } else if eq_lower(e, "tiff") || eq_lower(e, "tif") {
        Some(ImageFormat::TIFF)
    } else if eq_lower(e, "ico") {
        Some(ImageFormat::ICO)
    } else if eq_lower(e, "heic") || eq_lower(e, "heif") {
        Some(ImageFormat::HEIC)
    } else if eq_lower(e, "avif") {
        Some(ImageFormat::AVIF)
    } else {
        None
    }
}

/// The extension of the path's file name: what follows the name's last dot,
/// empty when the name has no dot past its first character.
pub open spec fn spec_path_ext(p: Seq<char>) -> Seq<char> {
    let start = spec_rfind(p, '/') + 1;
    let name = p.subrange(start, p.len() as int);
    let d = spec_rfind(name, '.');
    if d <= 0 {
        Seq::empty()
    } else {
        name.subrange(d + 1, name.len() as int)
    }
}

/// Extracts the path's file extension.
pub fn path_extension(path: &str) -> (r: &str)
    ensures
        r@ == spec_path_ext(path@),
{
    let n = path.unicode_len();
    let name_start = match rfind(path, '/') {
        Some(i) => {
            proof {
                lemma_rfind_range(path@, '/');
            }
            i + 1
        },
        None => 0,
    };
    let name = path.substring_char(name_start, n);
    match rfind(name, '.') {
        Some(d) => {
            proof {
                lemma_rfind_range(name@, '.');
            }
            if d > 0 {
                name.substring_char(d + 1, name.unicode_len())
            } else {
                proof {
                    reveal_strlit("");
                    assert(""@ =~= Seq::<char>::empty());
                }
                ""
            }
        },
        None => {
            proof {
                reveal_strlit("");
                assert(""@ =~= Seq::<char>::empty());
            }
            ""
        },
    }
}

/// Whether a path's extension names a format the engine recognises,
/// matched without regard to case.
pub open spec fn spec_supported_image_path(p: Seq<char>) -> bool {
    spec_format_from_ext(spec_path_ext(p)) is Some
}

/// Whether the path's file extension names a recognised image format.
pub fn is_supported_image_path(path: &str) -> (r: bool)
    ensures
        r == spec_supported_image_path(path@),
{
    let ext = path_extension(path);
    match format_from_ext(ext) {
        Some(_) => true,
        None => false,
    }
}

/// The quality a conversion request asks for, with the JPEG default of 90.
pub open spec fn spec_quality(options: Option<ConversionOptions>) -> u8 {
    match options {
        Some(o) => match o.quality {
            Some(q) => q,
            None => 90,
        },
        None => 90,
    }
}

/// Whether the requested quality, if any, lies in 1..=100.
pub open spec fn spec_quality_ok(options: Option<ConversionOptions>) -> bool {
    match options {
        Some(o) => match o.quality {
            Some(q) => 1 <= q && q <= 100,
            None => true,
        },
        None => true,
    }
}

/// Re-encodes the image in `target_format`; for JPEG an explicit quality in
/// 1..=100 is honoured (default 90), WEBP and AVIF accept a quality but
/// encode with default settings. The path's extension is rewritten; the
/// dimensions are carried over from the input value.
pub fn convert_format(
    image_data: &ImageData,
    target_format: &str,
    options: Option<ConversionOptions>,
) -> (r: Result<ImageData, AppError>)
    ensures
        ({
            let parsed = spec_parse_target_format(target_format@);
            let q = spec_quality(options);
            let dec = spec_decoded_data(image_data.data@);
            match r {
                Ok(out) => {
                    &&& parsed matches Some(tf)
                    &&& spec_quality_ok(options)
                    &&& dec matches Some((dw, dh, ddata, dalpha))
                    &&& dw > 0 && dh > 0
                    &&& ({
                        let enc_opt = if tf is JPEG {
                            jpeg_encoding_of(q, dw, dh, ddata)
                        } else {
                            encoding_of(tf, dw, dh, ddata)
                        };
                        &&& enc_opt matches Some(enc)
                        &&& enc.len() <= MAX_ENCODE_BYTES
                        &&& out.data@ == b64_of(enc)
                        &&& out.format == tf
                        &&& out.path@ == spec_updated_path(image_data.path@, tf.spec_extension())
                    })
                    &&& out.width == image_data.width && out.height == image_data.height
                    &&& out.has_alpha == (dalpha && spec_has_translucent(ddata))
                },
                Err(e) => {
                    if parsed is None {
                        e is UnsupportedFormat
                    } else if !spec_quality_ok(options) {
                        e is InvalidParameters
                    } else if b64_decoded_of(image_data.data@) is None {
                        e is InvalidImageData
                    } else if dec is None {
                        e is ImageError
                    } else {
                        let (dw, dh, ddata, dalpha) = dec->0;
                        if dw == 0 || dh == 0 {
                            e is ImageError
                        } else {
                            let enc_opt = if parsed->0 is JPEG {
                                jpeg_encoding_of(q, dw, dh, ddata)
                            } else {
                                encoding_of(parsed->0, dw, dh, ddata)
                            };
                            match enc_opt {
                                Some(enc) => e is OperationFailed && enc.len()
                                    > MAX_ENCODE_BYTES,
                                None => e is ImageError,
                            }
                        }
                    }
                },
            }
        }),
{
    let target = match parse_target_format(target_format) {
        Some(f) => f,
        None => {
            let mut msg = String::from_str("Unsupported target format: ");
            msg.append(target_format);
            return Err(AppError::UnsupportedFormat(msg));
        },
    };
    if let Some(ref opts) = options {
        if let Some(quality) = opts.quality {
            if quality < 1 || quality > 100 {
                return Err(AppError::InvalidParameters(
                    String::from_str("Quality parameter must be between 1 and 100"),
                ));
            }
        }
    }
    let dec = match decode_image_data(image_data) {
        Ok(d) => d,
        Err(e) => {
            return Err(e);
        },
    };
    if dec.width == 0 || dec.height == 0 {
        return Err(AppError::ImageError(String::from_str("decoded image is empty")));
    }
    let has_alpha = dec.channel_alpha && has_translucent(&dec.data);
    let encoded_res = if matches!(target, ImageFormat::JPEG) {
        let quality: u8 = match &options {
            Some(o) => match o.quality {
                Some(q) => q,
                None => 90,
            },
            None => 90,
        };
        encode_jpeg(quality, dec.width, dec.height, dec.data)
    } else {
        encode_image(target, dec.width, dec.height, dec.data)
    };
    let encoded = match encoded_res {
        Ok(b) => b,
        Err(e) => {
            return Err(e);
        },
    };
    if encoded.len() > MAX_ENCODE_BYTES {
        return Err(AppError::OperationFailed(String::from_str("encoded image is too large")));
    }
    let base64_data = base64_encode(&encoded);
    let new_path = update_file_extension(image_data.path.as_str(), &target);
    Ok(ImageData {
        path: new_path,
        width: image_data.width,
        height: image_data.height,
        format: target,
        data: base64_data,
        has_alpha,
    })
}

/// Builds the image value for a file's bytes: SVG is carried through with
/// placeholder dimensions, HEIC is rejected, everything else is decoded for
/// its dimensions and transparency, with the format read from the extension
/// or guessed from the bytes.
pub fn load_image_from_bytes(path: String, file_bytes: Vec<u8>) -> (r: Result<
    ImageData,
    AppError,
>)
    ensures
        ({
            let ext = spec_path_ext(path@);
            let lext = spec_lower(ext);
            match r {
                Ok(out) => {
                    &&& file_bytes@.len() <= MAX_ENCODE_BYTES
                    &&& out.data@ == b64_of(file_bytes@)
                    &&& out.path@ == path@
                    &&& if lext == "svg"@ {
                        &&& out.width == 0 && out.height == 0
                        &&& out.format is SVG
                        &&& out.has_alpha
                    } else {
                        &&& !(lext == "heic"@ || lext == "heif"@)
                        &&& decoded_of(file_bytes@) matches Some((dw, dh, ddata, dalpha))
                        &&& out.width == dw && out.height == dh
                        &&& out.has_alpha == (dalpha && spec_has_translucent(ddata))
                        &&& match spec_format_from_ext(ext) {
                            Some(f) => out.format == f,
                            None => guessed_format_of(file_bytes@) matches Some(f)
                                && out.format == f,
                        }
                    }
                },
                Err(e) => {
                    if lext == "svg"@ {
                        e is OperationFailed && file_bytes@.len() > MAX_ENCODE_BYTES
                    } else if lext == "heic"@ || lext == "heif"@ {
                        e is UnsupportedFormat
                    } else if decoded_of(file_bytes@) is None {
                        e is ImageError
                    } else if spec_format_from_ext(ext) is None && guessed_format_of(
                        file_bytes@,
                    ) is None {
                        e is UnsupportedFormat
                    } else {
                        e is OperationFailed && file_bytes@.len() > MAX_ENCODE_BYTES
                    }
                },
            }
        }),
{
    let ext_owned = {
        let e = path_extension(path.as_str());
        String::from_str(e)
    };
    let ext = ext_owned.as_str();
    if eq_lower(ext, "svg") {
        if file_bytes.len() > MAX_ENCODE_BYTES {
            return Err(AppError::OperationFailed(String::from_str("file is too large")));
        }
        let base64_data = base64_encode(&file_bytes);
        return Ok(ImageData {
            path,
            width: 0,
            height: 0,
            format: ImageFormat::SVG,
            data: base64_data,
            has_alpha: true,
        });
    }
    if eq_lower(ext, "heic") || eq_lower(ext, "heif") {
        return Err(AppError::UnsupportedFormat(
            String::from_str("HEIC format is not yet supported"),
        ));
    }
    let dec = match decode_image(&file_bytes) {
        Ok(d) => d,
        Err(e) => {
            return Err(e);
        },
    };
    let format = match format_from_ext(ext) {
        Some(f) => f,
        None => match guess_format(&file_bytes) {
            Some(f) => f,
            None => {
                let mut msg = String::from_str("Unknown format: ");
                msg.append(ext);
                return Err(AppError::UnsupportedFormat(msg));
            },
        },
    };
    let has_alpha = dec.channel_alpha && has_translucent(&dec.data);
    if file_bytes.len() > MAX_ENCODE_BYTES {
        return Err(AppError::OperationFailed(String::from_str("file is too large")));
    }
    let base64_data = base64_encode(&file_bytes);
    Ok(ImageData {
        path,
        width: dec.width,
        height: dec.height,
        format,
        data: base64_data,
        has_alpha,
    })
}

/// Rotates the image 90 degrees clockwise or counter-clockwise; the
/// reported dimensions are the decoded dimensions, swapped.
pub fn rotate_image(image_data: &ImageData, clockwise: bool) -> (r: Result<ImageData, AppError>)
    ensures
        ({
            let dec = spec_decoded_data(image_data.data@);
            match r {
                Ok(out) => {
                    &&& dec matches Some((dw, dh, ddata, dalpha))
                    &&& dw > 0 && dh > 0
                    &&& ({
                        let rotated = if clockwise {
                            spec_rotated_cw(ddata, dw as int, dh as int, dw as int)
                        } else {
                            spec_rotated_ccw(ddata, dw as int, dh as int, dw as int)
                        };
                        &&& image_data.format.spec_encodable()
                        &&& out.width == dh && out.height == dw
                        &&& out.has_alpha == (dalpha && spec_has_translucent(rotated))
                        &&& encoding_of(image_data.format, dh, dw, rotated) matches Some(enc)
                        &&& enc.len() <= MAX_ENCODE_BYTES
                        &&& out.data@ == b64_of(enc)
                    })
                    &&& out.path@ == image_data.path@
                    &&& out.format == image_data.format
                },
                Err(e) => {
                    if b64_decoded_of(image_data.data@) is None {
                        e is InvalidImageData
                    } else if dec is None {
                        e is ImageError
                    } else {
                        let (dw, dh, ddata, dalpha) = dec->0;
                        if dw == 0 || dh == 0 {
                            e is ImageError
                        } else if !image_data.format.spec_encodable() {
                            e is UnsupportedFormat
                        } else {
                            let rotated = if clockwise {
                                spec_rotated_cw(ddata, dw as int, dh as int, dw as int)
                            } else {
                                spec_rotated_ccw(ddata, dw as int, dh as int, dw as int)
                            };
                            match encoding_of(image_data.format, dh, dw, rotated) {
                                Some(enc) => e is OperationFailed && enc.len()
                                    > MAX_ENCODE_BYTES,
                                None => e is ImageError,
                            }
                        }
                    }
                },
            }
        }),
{
    let dec = match decode_image_data(image_data) {
        Ok(d) => d,
        Err(e) => {
            return Err(e);
        },
    };
    if dec.width == 0 || dec.height == 0 {
        return Err(AppError::ImageError(String::from_str("decoded image is empty")));
    }
    if let Err(e) = crate::error::validate_encodable(&image_data.format) {
        return Err(e);
    }
    let rotated = if clockwise {
        rotate_cw(&dec.data, dec.width, dec.height)
    } else {
        rotate_ccw(&dec.data, dec.width, dec.height)
    };
    let has_alpha = dec.channel_alpha && has_translucent(&rotated);
    proof {
        assert(4 * (dec.height as int) * (dec.width as int) == 4 * (dec.width as int) * (
        dec.height as int)) by (nonlinear_arith);
    }
    let encoded = match encode_image(image_data.format, dec.height, dec.width, rotated) {
        Ok(b) => b,
        Err(e) => {
            return Err(e);
        },
    };
    if encoded.len() > MAX_ENCODE_BYTES {
        return Err(AppError::OperationFailed(String::from_str("encoded image is too large")));
    }
    let base64_data = base64_encode(&encoded);
    Ok(ImageData {
        path: image_data.path.clone(),
        width: dec.height,
        height: dec.width,
        format: image_data.format,
        data: base64_data,
        has_alpha,
    })
}

} // verus!
