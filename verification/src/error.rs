//! The error taxonomy and the parameter validators.

use vstd::prelude::*;
use vstd::string::StringExecFns;
use crate::types::ImageFormat;

verus! {

/// Everything an operation can fail with.
///
/// Each variant carries a human-readable detail string; failures of outside
/// codecs are carried as their message text.
#[derive(Debug, Clone, PartialEq)]
pub enum AppError {
    /// A named file does not exist.
    FileNotFound(String),
    /// The format has no decode or encode path here.
    UnsupportedFormat(String),
    /// The supplied bytes cannot be decoded as an image, or the base64
    /// transport encoding is malformed.
    InvalidImageData(String),
    /// Caller-supplied values violate a precondition.
    InvalidParameters(String),
    /// A save operation failed.
    SaveFailed(String),
    /// A generic operation failure.
    OperationFailed(String),
    /// The file system refused access.
    PermissionDenied(String),
    /// An I/O failure, as reported by the system.
    IoError(String),
    /// The image codec failed on parseable input.
    ImageError(String),
    /// The base64 decoder rejected the input.
    Base64Error(String),
}

impl AppError {
    /// The message text that `message` produces.
    pub open spec fn spec_message(self) -> Seq<char> {
        match self {
            AppError::FileNotFound(s) => "File not found: "@ + s@,
            AppError::UnsupportedFormat(s) => "Unsupported image format: "@ + s@,
            AppError::InvalidImageData(s) => "Invalid image data: "@ + s@,
            AppError::InvalidParameters(s) => "Invalid parameters: "@ + s@,
            AppError::SaveFailed(s) => "Save operation failed: "@ + s@,
            AppError::OperationFailed(s) => "Operation failed: "@ + s@,
            AppError::PermissionDenied(s) => "Permission denied: "@ + s@,
            AppError::IoError(s) => "IO error: "@ + s@,
            AppError::ImageError(s) => "Image processing error: "@ + s@,
            AppError::Base64Error(s) => "Base64 decode error: "@ + s@,
        }
    }

    /// The error rendered as one line: a fixed prefix naming the kind,
    /// then the detail string.
    pub fn message(&self) -> (r: String)
        ensures
            r@ == self.spec_message(),
    {
        let (prefix, detail): (&str, &String) = match self {
            AppError::FileNotFound(s) => ("File not found: ", s),
            AppError::UnsupportedFormat(s) => ("Unsupported image format: ", s),
            AppError::InvalidImageData(s) => ("Invalid image data: ", s),
            AppError::InvalidParameters(s) => ("Invalid parameters: ", s),
            AppError::SaveFailed(s) => ("Save operation failed: ", s),
            AppError::OperationFailed(s) => ("Operation failed: ", s),
            AppError::PermissionDenied(s) => ("Permission denied: ", s),
            AppError::IoError(s) => ("IO error: ", s),
            AppError::ImageError(s) => ("Image processing error: ", s),
            AppError::Base64Error(s) => ("Base64 decode error: ", s),
        };
        let mut out = String::from_str(prefix);
        out.append(detail.as_str());
        out
    }
}

impl From<AppError> for String {
    /// The error's message text, for callers that want a plain string.
    fn from(error: AppError) -> (r: String)
        ensures
            r@ == error.spec_message(),
    {
        error.message()
    }
}

impl vstd::std_specs::convert::FromSpecImpl<AppError> for String {
    open spec fn obeys_from_spec() -> bool {
        false
    }

    open spec fn from_spec(error: AppError) -> String {
        choose|s: String| s@ == error.spec_message()
    }
}

/// Result type used by the operations.
pub type AppResult<T> = Result<T, AppError>;

/// Accepts exactly the positive dimension pairs.
pub fn validate_dimensions(width: u32, height: u32) -> (r: Result<(), AppError>)
    ensures
        r is Ok <==> (width > 0 && height > 0),
        r is Err ==> r->Err_0 is InvalidParameters,
{
    if width == 0 || height == 0 {
        return Err(AppError::InvalidParameters(
            String::from_str("Width and height must be positive integers"),
        ));
    }
    Ok(())
}

/// Accepts exactly the crop regions that lie fully inside the image.
pub fn validate_crop_region(
    x: u32,
    y: u32,
    width: u32,
    height: u32,
    img_width: u32,
    img_height: u32,
) -> (r: Result<(), AppError>)
    ensures
        r is Ok <==> (x + width <= img_width && y + height <= img_height),
        r is Err ==> r->Err_0 is InvalidParameters,
{
    if (x as u64) + (width as u64) > (img_width as u64)
        || (y as u64) + (height as u64) > (img_height as u64) {
        return Err(AppError::InvalidParameters(
            String::from_str("Crop region exceeds image bounds"),
        ));
    }
    Ok(())
}

/// Accepts exactly the quality values in 1..=100.
pub fn validate_quality(quality: u8) -> (r: Result<(), AppError>)
    ensures
        r is Ok <==> (1 <= quality && quality <= 100),
        r is Err ==> r->Err_0 is InvalidParameters,
{
    if quality < 1 || quality > 100 {
        return Err(AppError::InvalidParameters(
            String::from_str("Quality must be between 1 and 100"),
        ));
    }
    Ok(())
}

/// Accepts a target format only when the engine can encode it; the error
/// names the format.
pub fn validate_encodable(format: &ImageFormat) -> (r: Result<(), AppError>)
    ensures
        r is Ok <==> format.spec_encodable(),
        r is Err ==> r->Err_0 is UnsupportedFormat,
{
    if format.encodable() {
        Ok(())
    } else {
        Err(AppError::UnsupportedFormat(String::from_str(format.name())))
    }
}

} // verus!
