use image_engine::types::{ImageData, ImageFormat, ConversionOptions, StickerData, TextData};
use image_engine::error::AppError;
use image_engine::ops::{resize_image, crop_image, convert_format, rotate_image};
use image_engine::stickers::apply_stickers;
use image_engine::text::{apply_texts, parse_hex_color};
use image_engine::strings::update_file_extension;
use image_engine::ops::is_supported_image_path;
use image_engine::geometry::calculate_aspect_ratio_dimensions;
use base64::{Engine as _, engine::general_purpose};
use image::{DynamicImage, ImageBuffer, Rgba};

fn encode_png(img: ImageBuffer<Rgba<u8>, Vec<u8>>) -> String {
    let mut buffer = Vec::new();
    DynamicImage::ImageRgba8(img)
        .write_to(&mut std::io::Cursor::new(&mut buffer), image::ImageFormat::Png)
        .unwrap();
    general_purpose::STANDARD.encode(&buffer)
}

fn solid_image(width: u32, height: u32, px: [u8; 4]) -> ImageData {
    let img = ImageBuffer::from_fn(width, height, |_, _| Rgba(px));
    ImageData {
        path: "test.png".to_string(),
        width,
        height,
        format: ImageFormat::PNG,
        data: encode_png(img),
        has_alpha: px[3] < 255,
    }
}

fn decode_pixels(data: &str) -> image::RgbaImage {
    let bytes = general_purpose::STANDARD.decode(data).unwrap();
    image::load_from_memory(&bytes).unwrap().to_rgba8()
}

#[test]
fn test_aspect_fit_examples() {
    // width limiting: 200x100 into 100x100 keeps the 2:1 ratio
    assert_eq!(calculate_aspect_ratio_dimensions(200, 100, 100, 100), (100, 50));
    // height limiting: 100x200 into 100x100 keeps the 1:2 ratio
    assert_eq!(calculate_aspect_ratio_dimensions(100, 200, 100, 100), (50, 100));
    // equal ratios scale exactly
    assert_eq!(calculate_aspect_ratio_dimensions(50, 50, 120, 120), (120, 120));
    // rounding to the nearest pixel, floored at one
    assert_eq!(calculate_aspect_ratio_dimensions(1000, 1, 10, 10), (10, 1));
}

#[test]
fn test_crop_clamps_to_exact_remainder() {
    // cropping a 100x100 image at (80, 80, 50, 50) leaves exactly 20x20
    let image = solid_image(100, 100, [10, 20, 30, 255]);
    let cropped = crop_image(&image, 80, 80, 50, 50).unwrap();
    assert_eq!(cropped.width, 20);
    assert_eq!(cropped.height, 20);
}

#[test]
fn test_crop_zero_rejected_at_any_position() {
    let image = solid_image(100, 100, [10, 20, 30, 255]);
    for (x, y) in [(0u32, 0u32), (50, 50), (200, 200)] {
        let r1 = crop_image(&image, x, y, 0, 10);
        assert!(matches!(r1.unwrap_err(), AppError::InvalidParameters(_)));
        let r2 = crop_image(&image, x, y, 10, 0);
        assert!(matches!(r2.unwrap_err(), AppError::InvalidParameters(_)));
    }
}

#[test]
fn test_crop_pixels_are_the_region() {
    // distinct pixels: value encodes the coordinates
    let img = ImageBuffer::from_fn(4, 4, |x, y| Rgba([(x * 10) as u8, (y * 10) as u8, 0, 255]));
    let image = ImageData {
        path: "grid.png".to_string(),
        width: 4,
        height: 4,
        format: ImageFormat::PNG,
        data: encode_png(img),
        has_alpha: false,
    };
    let cropped = crop_image(&image, 1, 2, 2, 2).unwrap();
    let px = decode_pixels(&cropped.data);
    assert_eq!(px.dimensions(), (2, 2));
    assert_eq!(px.get_pixel(0, 0).0, [10, 20, 0, 255]);
    assert_eq!(px.get_pixel(1, 1).0, [20, 30, 0, 255]);
}

#[test]
fn test_rotate_matches_reference_rotation() {
    let img = ImageBuffer::from_fn(4, 2, |x, y| {
        Rgba([(x * 20) as u8, (y * 20) as u8, 7, 255])
    });
    let reference_cw = DynamicImage::ImageRgba8(img.clone()).rotate90().to_rgba8();
    let reference_ccw = DynamicImage::ImageRgba8(img.clone()).rotate270().to_rgba8();
    let image = ImageData {
        path: "r.png".to_string(),
        width: 4,
        height: 2,
        format: ImageFormat::PNG,
        data: encode_png(img),
        has_alpha: false,
    };

    let cw = rotate_image(&image, true).unwrap();
    assert_eq!(cw.width, 2);
    assert_eq!(cw.height, 4);
    let cw_px = decode_pixels(&cw.data);
    assert_eq!(cw_px.dimensions(), (2, 4));
    for (x, y, p) in reference_cw.enumerate_pixels() {
        assert_eq!(cw_px.get_pixel(x, y), p, "clockwise pixel ({}, {})", x, y);
    }

    let ccw = rotate_image(&image, false).unwrap();
    let ccw_px = decode_pixels(&ccw.data);
    assert_eq!(ccw_px.dimensions(), (2, 4));
    for (x, y, p) in reference_ccw.enumerate_pixels() {
        assert_eq!(ccw_px.get_pixel(x, y), p, "counter-clockwise pixel ({}, {})", x, y);
    }
}

#[test]
fn test_resize_pixels_change_size() {
    let image = solid_image(4, 4, [50, 100, 150, 255]);
    let resized = resize_image(&image, 2, 2, false).unwrap();
    let px = decode_pixels(&resized.data);
    assert_eq!(px.dimensions(), (2, 2));
    // a solid image stays solid through resampling
    assert_eq!(px.get_pixel(0, 0).0, [50, 100, 150, 255]);
}

#[test]
fn test_convert_quality_rejected_before_decode() {
    // fail-fast: the quality check fires before any decode work, so even
    // undecodable data reports the quality error
    let bogus = ImageData {
        path: "x.png".to_string(),
        width: 1,
        height: 1,
        format: ImageFormat::PNG,
        data: "!!!not-base64!!!".to_string(),
        has_alpha: false,
    };
    let r0 = convert_format(&bogus, "JPEG", Some(ConversionOptions { quality: Some(0) }));
    assert!(r0.unwrap_err().message().contains("Quality parameter"));
    let r101 = convert_format(&bogus, "JPEG", Some(ConversionOptions { quality: Some(101) }));
    assert!(r101.unwrap_err().message().contains("Quality parameter"));
}

#[test]
fn test_convert_round_trip_preserves_dimensions() {
    let image = solid_image(31, 17, [10, 20, 30, 255]);
    let as_jpeg = convert_format(&image, "JPEG", Some(ConversionOptions { quality: Some(90) }))
        .unwrap();
    assert_eq!((as_jpeg.width, as_jpeg.height), (31, 17));
    let back = convert_format(&as_jpeg, "PNG", None).unwrap();
    assert_eq!((back.width, back.height), (31, 17));
    // both extremes of the quality range produce decodable output
    for q in [1u8, 100] {
        let r = convert_format(&image, "JPEG", Some(ConversionOptions { quality: Some(q) }))
            .unwrap();
        let px = decode_pixels(&r.data);
        assert_eq!(px.dimensions(), (31, 17));
    }
}

#[test]
fn test_convert_jpeg_bytes_really_are_jpeg() {
    let image = solid_image(8, 8, [10, 20, 30, 255]);
    let as_jpeg = convert_format(&image, "jpeg", None).unwrap();
    let bytes = general_purpose::STANDARD.decode(&as_jpeg.data).unwrap();
    assert_eq!(image::guess_format(&bytes).unwrap(), image::ImageFormat::Jpeg);
    assert!(as_jpeg.path.ends_with(".jpg"));
}

#[test]
fn test_sticker_full_replacement() {
    // a single unrotated, fully opaque sticker of the base's own size at
    // the origin replaces the base entirely
    let base = solid_image(4, 4, [255, 0, 0, 255]);
    let sticker_img = ImageBuffer::from_fn(4, 4, |_, _| Rgba([0u8, 0u8, 255u8, 255u8]));
    let sticker = StickerData {
        image_data: encode_png(sticker_img),
        x: 0,
        y: 0,
        width: 4,
        height: 4,
        rotation: 0,
    };
    let result = apply_stickers(&base, &vec![sticker]).unwrap();
    assert_eq!(result.width, 4);
    assert_eq!(result.height, 4);
    let px = decode_pixels(&result.data);
    for y in 0..4 {
        for x in 0..4 {
            assert_eq!(px.get_pixel(x, y).0, [0, 0, 255, 255], "pixel ({}, {})", x, y);
        }
    }
}

#[test]
fn test_sticker_partial_placement() {
    // a 1x1 sticker placed at (2, 1) colours exactly that pixel
    let base = solid_image(4, 4, [255, 0, 0, 255]);
    let sticker_img = ImageBuffer::from_fn(1, 1, |_, _| Rgba([0u8, 255u8, 0u8, 255u8]));
    let sticker = StickerData {
        image_data: encode_png(sticker_img),
        x: 2,
        y: 1,
        width: 1,
        height: 1,
        rotation: 0,
    };
    let result = apply_stickers(&base, &vec![sticker]).unwrap();
    let px = decode_pixels(&result.data);
    assert_eq!(px.get_pixel(2, 1).0, [0, 255, 0, 255]);
    assert_eq!(px.get_pixel(0, 0).0, [255, 0, 0, 255]);
    assert_eq!(px.get_pixel(3, 3).0, [255, 0, 0, 255]);
}

#[test]
fn test_sticker_rotation_runs_and_keeps_dimensions() {
    // a rotated overlay still yields an image of the base's size, and a
    // pixel well inside a uniform overlay takes the overlay's colour
    let base = solid_image(5, 5, [255, 0, 0, 255]);
    let sticker_img = ImageBuffer::from_fn(5, 5, |_, _| Rgba([0u8, 0u8, 255u8, 255u8]));
    let sticker = StickerData {
        image_data: encode_png(sticker_img),
        x: 0,
        y: 0,
        width: 5,
        height: 5,
        rotation: 45,
    };
    let result = apply_stickers(&base, &vec![sticker]).unwrap();
    assert_eq!((result.width, result.height), (5, 5));
    let px = decode_pixels(&result.data);
    assert_eq!(px.get_pixel(2, 2).0, [0, 0, 255, 255]);
}

#[test]
fn test_text_cjk_falls_back_to_generic_glyph() {
    // a CJK character renders through the generic glyph rather than failing
    let base = solid_image(10, 10, [0, 0, 0, 255]);
    let text = TextData {
        text: "\u{4E01}".to_string(),
        x: 0,
        y: 0,
        font_size: 7,
        color: "#FF0000".to_string(),
        rotation: 0,
    };
    let result = apply_texts(&base, &vec![text]).unwrap();
    let px = decode_pixels(&result.data);
    // the generic CJK pattern's first row is 0b11111
    assert_eq!(px.get_pixel(0, 0).0, [255, 0, 0, 255]);
    assert_eq!(px.get_pixel(4, 0).0, [255, 0, 0, 255]);
}

#[test]
fn test_sticker_empty_list_rejected() {
    let base = solid_image(4, 4, [255, 0, 0, 255]);
    let result = apply_stickers(&base, &vec![]);
    assert!(matches!(result.unwrap_err(), AppError::InvalidParameters(_)));
}

#[test]
fn test_sticker_zero_size_rejected() {
    let base = solid_image(4, 4, [255, 0, 0, 255]);
    let sticker_img = ImageBuffer::from_fn(2, 2, |_, _| Rgba([0u8, 255u8, 0u8, 255u8]));
    let sticker = StickerData {
        image_data: encode_png(sticker_img),
        x: 0,
        y: 0,
        width: 0,
        height: 2,
        rotation: 0,
    };
    let result = apply_stickers(&base, &vec![sticker]);
    assert!(matches!(result.unwrap_err(), AppError::InvalidParameters(_)));
}

#[test]
fn test_text_bitmap_rendering() {
    // black square, white capital I at the origin, font size 7: the glyph
    // grid maps one pattern cell to one pixel
    let base = solid_image(20, 20, [0, 0, 0, 255]);
    let text = TextData {
        text: "I".to_string(),
        x: 0,
        y: 0,
        font_size: 7,
        color: "#FFFFFF".to_string(),
        rotation: 0,
    };
    let result = apply_texts(&base, &vec![text]).unwrap();
    assert_eq!(result.width, 20);
    assert_eq!(result.height, 20);
    let px = decode_pixels(&result.data);
    // row 0 of the I glyph is 0b01110: columns 1..=3 are set
    assert_eq!(px.get_pixel(0, 0).0, [0, 0, 0, 255]);
    assert_eq!(px.get_pixel(1, 0).0, [255, 255, 255, 255]);
    assert_eq!(px.get_pixel(2, 0).0, [255, 255, 255, 255]);
    assert_eq!(px.get_pixel(3, 0).0, [255, 255, 255, 255]);
    assert_eq!(px.get_pixel(4, 0).0, [0, 0, 0, 255]);
}

#[test]
fn test_text_errors() {
    let base = solid_image(8, 8, [0, 0, 0, 255]);
    // empty list
    let r = apply_texts(&base, &vec![]);
    assert!(matches!(r.unwrap_err(), AppError::InvalidParameters(_)));
    // zero font size, with the entry's position named
    let t = TextData {
        text: "hi".to_string(),
        x: 0,
        y: 0,
        font_size: 0,
        color: "#FFFFFF".to_string(),
        rotation: 0,
    };
    let r = apply_texts(&base, &vec![t]);
    assert!(r.unwrap_err().message().contains("Text 0 has invalid font size"));
    // malformed colour, with the offending value named
    let t = TextData {
        text: "hi".to_string(),
        x: 0,
        y: 0,
        font_size: 10,
        color: "#GGHHII".to_string(),
        rotation: 0,
    };
    let r = apply_texts(&base, &vec![t]);
    let msg = r.unwrap_err().message();
    assert!(msg.contains("invalid color"));
    assert!(msg.contains("#GGHHII"));
    // an empty entry is skipped, not an error
    let t = TextData {
        text: "".to_string(),
        x: 0,
        y: 0,
        font_size: 0,
        color: "bad".to_string(),
        rotation: 0,
    };
    assert!(apply_texts(&base, &vec![t]).is_ok());
}

#[test]
fn test_parse_hex_color_cases() {
    assert_eq!(parse_hex_color("#FF00ff"), Ok((255, 0, 255)));
    assert_eq!(parse_hex_color("010203"), Ok((1, 2, 3)));
    assert_eq!(parse_hex_color("##808080"), Ok((128, 128, 128)));
    assert!(parse_hex_color("#FFF").is_err());
    assert!(parse_hex_color("#GG0000").is_err());
    assert!(parse_hex_color("").is_err());
}

#[test]
fn test_update_file_extension_cases() {
    assert_eq!(update_file_extension("a/b.png", &ImageFormat::JPEG), "a/b.jpg");
    assert_eq!(update_file_extension("noext", &ImageFormat::PNG), "noext.png");
    assert_eq!(update_file_extension("", &ImageFormat::BMP), "image.bmp");
    assert_eq!(update_file_extension("/x/y.tar.gz", &ImageFormat::WEBP), "/x/y.tar.webp");
}

#[test]
fn test_error_variants_by_cause() {
    // malformed base64 transport
    let bad_b64 = ImageData {
        path: "x.png".to_string(),
        width: 1,
        height: 1,
        format: ImageFormat::PNG,
        data: "!!!".to_string(),
        has_alpha: false,
    };
    assert!(matches!(
        resize_image(&bad_b64, 2, 2, false).unwrap_err(),
        AppError::InvalidImageData(_)
    ));
    // valid base64, undecodable bytes
    let bad_bytes = ImageData {
        path: "x.png".to_string(),
        width: 1,
        height: 1,
        format: ImageFormat::PNG,
        data: general_purpose::STANDARD.encode(b"junk"),
        has_alpha: false,
    };
    assert!(matches!(
        resize_image(&bad_bytes, 2, 2, false).unwrap_err(),
        AppError::ImageError(_)
    ));
    // a recognised but unconvertible target format name
    let good = solid_image(2, 2, [1, 2, 3, 255]);
    assert!(matches!(
        convert_format(&good, "HEIC", None).unwrap_err(),
        AppError::UnsupportedFormat(_)
    ));
}

#[test]
fn test_supported_image_paths() {
    assert!(is_supported_image_path("a/b.png"));
    assert!(is_supported_image_path("a/b.JPEG"));
    assert!(is_supported_image_path("c.tif"));
    assert!(is_supported_image_path("c.heif"));
    assert!(!is_supported_image_path("document.txt"));
    assert!(!is_supported_image_path("data.json"));
    assert!(!is_supported_image_path("noextension"));
}

#[test]
fn test_svg_input_rejected_by_transforms() {
    // an SVG image value cannot be decoded as raster data
    let svg = ImageData {
        path: "icon.svg".to_string(),
        width: 0,
        height: 0,
        format: ImageFormat::SVG,
        data: general_purpose::STANDARD.encode(b"<svg/>"),
        has_alpha: true,
    };
    assert!(resize_image(&svg, 10, 10, false).is_err());
    assert!(crop_image(&svg, 0, 0, 1, 1).is_err());
    assert!(rotate_image(&svg, true).is_err());
}
