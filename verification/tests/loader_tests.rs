use image_engine::types::ImageFormat;
use image_engine::ops::load_image_from_bytes;
use base64::{Engine as _, engine::general_purpose};
use image::{DynamicImage, ImageBuffer, Rgba};

/// PNG bytes for a small RGBA image with one transparent pixel.
fn png_with_alpha_bytes() -> Vec<u8> {
    let mut img = ImageBuffer::from_fn(10, 10, |_, _| Rgba([10u8, 20u8, 30u8, 255u8]));
    img.put_pixel(3, 3, Rgba([0, 0, 0, 0]));
    let mut buffer = Vec::new();
    DynamicImage::ImageRgba8(img)
        .write_to(&mut std::io::Cursor::new(&mut buffer), image::ImageFormat::Png)
        .unwrap();
    buffer
}

/// JPEG bytes for a small RGB image.
fn jpeg_bytes() -> Vec<u8> {
    let img = ImageBuffer::from_fn(10, 10, |_, _| image::Rgb([200u8, 100u8, 50u8]));
    let mut buffer = Vec::new();
    DynamicImage::ImageRgb8(img)
        .write_to(&mut std::io::Cursor::new(&mut buffer), image::ImageFormat::Jpeg)
        .unwrap();
    buffer
}

#[test]
fn test_load_png_with_alpha() {
    let bytes = png_with_alpha_bytes();
    let result = load_image_from_bytes("photos/test.png".to_string(), bytes.clone());
    assert!(result.is_ok(), "Failed to load PNG: {:?}", result.err().map(|e| e.message()));
    let loaded = result.unwrap();
    assert_eq!(loaded.width, 10);
    assert_eq!(loaded.height, 10);
    assert_eq!(loaded.format, ImageFormat::PNG);
    assert!(loaded.has_alpha, "PNG should have alpha channel");
    assert!(!loaded.data.is_empty(), "Base64 data should not be empty");
    // the transported data is the file's own bytes
    let decoded = general_purpose::STANDARD.decode(&loaded.data).unwrap();
    assert_eq!(decoded, bytes);
}

#[test]
fn test_load_jpeg_no_alpha() {
    let bytes = jpeg_bytes();
    let result = load_image_from_bytes("photos/test.jpg".to_string(), bytes);
    assert!(result.is_ok(), "Failed to load JPEG: {:?}", result.err().map(|e| e.message()));
    let loaded = result.unwrap();
    assert_eq!(loaded.width, 10);
    assert_eq!(loaded.height, 10);
    assert_eq!(loaded.format, ImageFormat::JPEG);
    assert!(!loaded.has_alpha, "JPEG should not have alpha channel");
    assert!(!loaded.data.is_empty(), "Base64 data should not be empty");
}

#[test]
fn test_load_invalid_image_data() {
    let bytes = b"This is not a valid image".to_vec();
    let result = load_image_from_bytes("invalid_image.png".to_string(), bytes);
    assert!(result.is_err(), "Should fail for invalid image data");
}

#[test]
fn test_base64_encoding() {
    let bytes = png_with_alpha_bytes();
    let result = load_image_from_bytes("test.png".to_string(), bytes).unwrap();
    let decoded = general_purpose::STANDARD.decode(&result.data);
    assert!(decoded.is_ok(), "Base64 data should be valid");
}

#[test]
fn test_load_guesses_unknown_extension() {
    // PNG bytes behind an unknown extension: the format comes from the
    // magic numbers
    let bytes = png_with_alpha_bytes();
    let result = load_image_from_bytes("file.xyz".to_string(), bytes).unwrap();
    assert_eq!(result.format, ImageFormat::PNG);
}

#[test]
fn test_load_svg_placeholder() {
    let bytes = b"<svg xmlns='http://www.w3.org/2000/svg'/>".to_vec();
    let result = load_image_from_bytes("icon.svg".to_string(), bytes.clone()).unwrap();
    assert_eq!(result.width, 0);
    assert_eq!(result.height, 0);
    assert_eq!(result.format, ImageFormat::SVG);
    assert!(result.has_alpha);
    let decoded = general_purpose::STANDARD.decode(&result.data).unwrap();
    assert_eq!(decoded, bytes);
}

#[test]
fn test_load_heic_rejected() {
    let result = load_image_from_bytes("photo.heic".to_string(), vec![0, 1, 2, 3]);
    assert!(result.is_err());
    assert!(result.unwrap_err().message().contains("HEIC"));
}
