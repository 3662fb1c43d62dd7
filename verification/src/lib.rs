//! An in-memory raster image editing engine.
//!
//! Given an encoded image and editing parameters, every operation decodes the
//! image, performs a geometric or photometric transform on the pixel data, and
//! re-encodes the result as a fresh value; the caller's input is never mutated.

pub mod types;
pub mod error;
pub mod codec;
pub mod pixels;
pub mod geometry;
pub mod strings;
pub mod ops;
pub mod stickers;
pub mod text;
pub mod favorites;

pub use types::ImageFormat;
pub use types::ImageData;
pub use types::ConversionOptions;
pub use types::RGBColor;
pub use types::StickerData;
pub use types::TextData;
pub use error::AppError;
pub use error::AppResult;
pub use favorites::FavoriteImage;
pub use favorites::FavoritesConfig;
