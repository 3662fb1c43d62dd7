//! The value types that the editing operations exchange.

use vstd::prelude::*;

verus! {

/// The closed set of image formats the engine recognises.
///
/// SVG and HEIC are recognised on load but have no decode or encode path:
/// every transform rejects them.
#[derive(Debug, Clone, Copy, PartialEq, Eq, Structural)]
pub enum ImageFormat {
    PNG,
    JPEG,
    GIF,
    BMP,
    WEBP,
    SVG,
    TIFF,
    ICO,
    HEIC,
    AVIF,
}

impl ImageFormat {
    /// True when the engine can re-encode pixel data in this format.
    pub open spec fn spec_encodable(self) -> bool {
        !(self is SVG || self is HEIC)
    }

    /// Whether this format has an encode path.
    pub fn encodable(&self) -> (r: bool)
        ensures
            r == self.spec_encodable(),
    {
        !(matches!(self, ImageFormat::SVG) || matches!(self, ImageFormat::HEIC))
    }

    /// The file extension written when a path is rewritten to this format.
    pub open spec fn spec_extension(self) -> Seq<char> {
        match self {
            ImageFormat::PNG => "png"@,
            ImageFormat::JPEG => "jpg"@,
            ImageFormat::GIF => "gif"@,
            ImageFormat::BMP => "bmp"@,
            ImageFormat::WEBP => "webp"@,
            ImageFormat::SVG => "svg"@,
            ImageFormat::TIFF => "tiff"@,
            ImageFormat::ICO => "ico"@,
            ImageFormat::HEIC => "heic"@,
            ImageFormat::AVIF => "avif"@,
        }
    }

    /// The file extension for this format, lower case.
    pub fn extension(&self) -> (r: &'static str)
        ensures
            r@ == self.spec_extension(),
    {
        match self {
            ImageFormat::PNG => "png",
            ImageFormat::JPEG => "jpg",
            ImageFormat::GIF => "gif",
            ImageFormat::BMP => "bmp",
            ImageFormat::WEBP => "webp",
            ImageFormat::SVG => "svg",
            ImageFormat::TIFF => "tiff",
            ImageFormat::ICO => "ico",
            ImageFormat::HEIC => "heic",
            ImageFormat::AVIF => "avif",
        }
    }

    /// The format's name in upper case, as used in messages.
    pub open spec fn spec_name(self) -> Seq<char> {
        match self {
            ImageFormat::PNG => "PNG"@,
            ImageFormat::JPEG => "JPEG"@,
            ImageFormat::GIF => "GIF"@,
            ImageFormat::BMP => "BMP"@,
            ImageFormat::WEBP => "WEBP"@,
            ImageFormat::SVG => "SVG"@,
            ImageFormat::TIFF => "TIFF"@,
            ImageFormat::ICO => "ICO"@,
            ImageFormat::HEIC => "HEIC"@,
            ImageFormat::AVIF => "AVIF"@,
        }
    }

    /// The format's display name in upper case.
    pub fn name(&self) -> (r: &'static str)
        ensures
            r@ == self.spec_name(),
    {
        match self {
            ImageFormat::PNG => "PNG",
            ImageFormat::JPEG => "JPEG",
            ImageFormat::GIF => "GIF",
            ImageFormat::BMP => "BMP",
            ImageFormat::WEBP => "WEBP",
            ImageFormat::SVG => "SVG",
            ImageFormat::TIFF => "TIFF",
            ImageFormat::ICO => "ICO",
            ImageFormat::HEIC => "HEIC",
            ImageFormat::AVIF => "AVIF",
        }
    }
}

/// An image value: metadata plus the encoded bytes in text-safe form.
///
/// Operations never mutate a given `ImageData`; each returns a fresh value.
#[derive(Debug, Clone, PartialEq)]
pub struct ImageData {
    /// File path of the image; an opaque handle except for extension rewriting.
    pub path: String,
    /// Image width in pixels.
    pub width: u32,
    /// Image height in pixels.
    pub height: u32,
    /// Image format.
    pub format: ImageFormat,
    /// The encoded image bytes, base64 encoded.
    pub data: String,
    /// Whether any decoded pixel is less than fully opaque.
    pub has_alpha: bool,
}

/// Options for format conversion operations.
#[derive(Debug, Clone, PartialEq)]
pub struct ConversionOptions {
    /// Quality for lossy targets, in 1..=100; JPEG honours it, WEBP and AVIF
    /// accept it but encode with default settings.
    pub quality: Option<u8>,
}

/// An RGB colour with 8-bit channels.
#[derive(Debug, Clone, PartialEq, Eq, Structural)]
pub struct RGBColor {
    /// Red component.
    pub r: u8,
    /// Green component.
    pub g: u8,
    /// Blue component.
    pub b: u8,
}

/// One sticker overlay: an encoded image placed on the base image.
#[derive(Debug, Clone, PartialEq)]
pub struct StickerData {
    /// The sticker's encoded image bytes, base64 encoded.
    pub image_data: String,
    /// X position of the unrotated bounding box in the base image.
    pub x: u32,
    /// Y position of the unrotated bounding box in the base image.
    pub y: u32,
    /// Target width the sticker is resized to before rotation.
    pub width: u32,
    /// Target height the sticker is resized to before rotation.
    pub height: u32,
    /// Rotation about the sticker's centre, in whole degrees, clockwise.
    pub rotation: i64,
}

/// One text overlay drawn onto the base image.
#[derive(Debug, Clone, PartialEq)]
pub struct TextData {
    /// The text to draw; an empty string is skipped.
    pub text: String,
    /// X position of the text's origin in the base image.
    pub x: u32,
    /// Y position of the text's origin in the base image.
    pub y: u32,
    /// Glyph height in pixels; must be positive for non-empty text.
    pub font_size: u32,
    /// Text colour as a `#RRGGBB` hex string.
    pub color: String,
    /// Requested rotation in whole degrees; accepted but not applied.
    pub rotation: i64,
}

} // verus!
