use std::io::Cursor;

use dropslim::formats::OutputFormatSetting;
use dropslim::image::{optimize_image_file, Encoding};

fn encoded(img: image::DynamicImage, format: image::ImageFormat) -> Vec<u8> {
    let mut buffer = Cursor::new(Vec::new());
    img.write_to(&mut buffer, format).expect("encode fixture");
    buffer.into_inner()
}

fn optimized_bytes(
    input: &str,
    output: &str,
    data: &[u8],
    limits: Option<(Option<u32>, Option<u32>)>,
    format: OutputFormatSetting,
) -> Vec<u8> {
    match optimize_image_file(input, output, data, limits, format).expect("optimize") {
        Encoding::Bytes { data, .. } => data,
        Encoding::Delegate { .. } => panic!("expected bytes"),
    }
}

#[test]
fn optimizes_png_fixture() {
    let img = image::RgbaImage::from_pixel(160, 120, image::Rgba([37, 99, 235, 255]));
    let input = encoded(img.into(), image::ImageFormat::Png);
    let output = optimized_bytes("sample.png", "output.min.png", &input, None, OutputFormatSetting::Original);
    assert!(!output.is_empty());
    assert!(output.len() < input.len(), "expected the png to shrink");
}

#[test]
fn optimizes_jpeg_fixture() {
    let img = image::RgbImage::from_pixel(160, 120, image::Rgb([220, 120, 40]));
    let input = encoded(img.into(), image::ImageFormat::Jpeg);
    let output = optimized_bytes("sample.jpg", "output.min.jpg", &input, None, OutputFormatSetting::Original);
    assert!(!output.is_empty());
    assert!(output.len() < input.len(), "expected the jpeg to shrink");
}

#[test]
fn resizes_jpeg_to_max_dimensions() {
    let img = image::RgbImage::from_fn(800, 600, |x, y| image::Rgb([(x % 255) as u8, (y % 255) as u8, 40]));
    let input = encoded(img.into(), image::ImageFormat::Jpeg);
    let output = optimized_bytes(
        "large.jpg",
        "large.min.jpg",
        &input,
        Some((Some(200), Some(200))),
        OutputFormatSetting::Original,
    );
    let optimized = image::load_from_memory(&output).expect("open output");
    assert_eq!((optimized.width(), optimized.height()), (200, 150));
}

#[test]
fn converts_png_to_jpeg() {
    let img = image::RgbaImage::from_pixel(160, 120, image::Rgba([37, 99, 235, 255]));
    let input = encoded(img.into(), image::ImageFormat::Png);
    let data = optimized_bytes("sample.png", "sample.min.jpg", &input, None, OutputFormatSetting::Jpeg);
    assert_eq!(&data[..2], b"\xff\xd8");
    let optimized = image::load_from_memory(&data).expect("open output");
    assert_eq!((optimized.width(), optimized.height()), (160, 120));
}
