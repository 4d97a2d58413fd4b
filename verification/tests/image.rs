use dropslim::formats::{ImageFormat, OutputFormatSetting};
use dropslim::heic::decode_heic;
use dropslim::image::{
    encoder_for, fit_dimensions, png_recompress_options, ChunkStripping, gifsicle_args, optimize_image_file, plan_optimization,
    png_uses_palette, prepare_raster, recompress_png, require_gifsicle, rgba_to_rgb, DimensionChange,
    Encoding,
};
use dropslim::payloads::ErrorPayload;

fn indexed_png() -> Vec<u8> {
    let mut buffer = Vec::new();
    {
        let mut encoder = png::Encoder::new(&mut buffer, 2, 2);
        encoder.set_color(png::ColorType::Indexed);
        encoder.set_depth(png::BitDepth::Eight);
        encoder.set_palette(&[255, 0, 0, 0, 255, 0, 0, 0, 255]);
        let mut writer = encoder.write_header().expect("png header");
        writer.write_image_data(&[0, 1, 0, 1]).expect("png pixels");
    }
    buffer
}

fn rgba_png(width: u32, height: u32) -> Vec<u8> {
    let mut buffer = Vec::new();
    {
        let mut encoder = png::Encoder::new(&mut buffer, width, height);
        encoder.set_color(png::ColorType::Rgba);
        encoder.set_depth(png::BitDepth::Eight);
        let mut writer = encoder.write_header().expect("png header");
        let pixels: Vec<u8> = (0..width * height).flat_map(|i| [12, 34, (i % 256) as u8, 255]).collect();
        writer.write_image_data(&pixels).expect("png pixels");
    }
    buffer
}

#[test]
fn detects_indexed_png_palette() {
    assert!(png_uses_palette(&indexed_png()).expect("indexed png"));
    assert!(!png_uses_palette(&rgba_png(8, 8)).expect("rgba png"));
    assert!(png_uses_palette(b"not a png").is_err());
}

#[test]
fn scales_to_the_tighter_bound() {
    assert_eq!(
        fit_dimensions(80, 60, Some((Some(40), None))),
        Some(DimensionChange { from_width: 80, from_height: 60, to_width: 40, to_height: 30 })
    );
    assert_eq!(
        fit_dimensions(400, 300, Some((Some(200), Some(200)))),
        Some(DimensionChange { from_width: 400, from_height: 300, to_width: 200, to_height: 150 })
    );
    assert_eq!(
        fit_dimensions(300, 400, Some((Some(200), Some(200)))),
        Some(DimensionChange { from_width: 300, from_height: 400, to_width: 150, to_height: 200 })
    );
    assert_eq!(fit_dimensions(120, 80, Some((Some(200), Some(200)))), None);
    assert_eq!(fit_dimensions(120, 80, None), None);
    assert_eq!(
        fit_dimensions(3, 1, Some((Some(2), None))),
        Some(DimensionChange { from_width: 3, from_height: 1, to_width: 2, to_height: 1 })
    );
    assert_eq!(
        fit_dimensions(512, 384, Some((Some(256), None))),
        Some(DimensionChange { from_width: 512, from_height: 384, to_width: 256, to_height: 192 })
    );
}

#[test]
fn conversions_spare_gif_and_svg() {
    assert_eq!(encoder_for(ImageFormat::Png, OutputFormatSetting::Jpeg), ImageFormat::Jpeg);
    assert_eq!(encoder_for(ImageFormat::Gif, OutputFormatSetting::Avif), ImageFormat::Gif);
    assert_eq!(encoder_for(ImageFormat::Svg, OutputFormatSetting::Webp), ImageFormat::Svg);
    assert_eq!(encoder_for(ImageFormat::Webp, OutputFormatSetting::Original), ImageFormat::Webp);
    let plan = plan_optimization("/tmp/a.png", "/tmp/a.png", OutputFormatSetting::Original).expect("plan");
    assert!(plan.copy_source_first);
    assert!(plan.check_animation);
    let plan = plan_optimization("/tmp/a.gif", "/tmp/a.min.gif", OutputFormatSetting::Original).expect("plan");
    assert!(!plan.copy_source_first && !plan.check_animation && !plan.resizes);
    assert!(matches!(
        plan_optimization("/tmp/a.txt", "/tmp/a.min.txt", OutputFormatSetting::Original),
        Err(e) if e == ErrorPayload::unsupported_format()
    ));
}

#[test]
fn gifsicle_is_required_for_gif() {
    assert_eq!(require_gifsicle(None), Err(ErrorPayload::gif_optimizer_unavailable()));
    assert_eq!(require_gifsicle(Some("/bin/gifsicle".into())), Ok("/bin/gifsicle".to_string()));
    assert_eq!(gifsicle_args("in.gif", "out.gif"), vec!["-o", "out.gif", "in.gif", "-O3", "-i"]);
}

#[test]
fn drops_alpha_for_jpeg() {
    assert_eq!(rgba_to_rgb(&vec![1, 2, 3, 4, 5, 6, 7, 8]), vec![1, 2, 3, 5, 6, 7]);
}

#[test]
fn recompressed_png_never_grows() {
    let input = rgba_png(32, 32);
    let output = recompress_png(&input).expect("recompress");
    assert!(output.len() <= input.len());
    assert!(!png_uses_palette(&output).expect("still a png"));
}

#[test]
fn prepares_scaled_raster() {
    let (img, change) = prepare_raster(&rgba_png(80, 60), "png", Some((Some(40), None))).expect("decode");
    assert_eq!((img.width, img.height), (40, 30));
    assert_eq!(img.pixels.len(), 40 * 30 * 4);
    assert!(change.is_some());
    assert!(prepare_raster(&rgba_png(8, 6), "jpg", None).is_err());
    assert!(prepare_raster(&rgba_png(8, 6), "txt", None).is_err());
}

#[test]
fn optimizing_a_file_picks_its_encoder() {
    let png = rgba_png(16, 16);
    match optimize_image_file("/tmp/a.png", "/tmp/a.min.png", &png, None, OutputFormatSetting::Original) {
        Ok(Encoding::Bytes { data, resized }) => {
            assert!(data.len() <= png.len());
            assert!(resized.is_none());
        }
        _ => panic!("a true-colour png is recompressed"),
    }
    match optimize_image_file("/tmp/a.png", "/tmp/a.min.jpg", &png, Some((Some(8), None)), OutputFormatSetting::Jpeg) {
        Ok(Encoding::Bytes { data, resized }) => {
            assert_eq!(&data[..2], b"\xff\xd8");
            assert_eq!(resized, Some(DimensionChange { from_width: 16, from_height: 16, to_width: 8, to_height: 8 }));
        }
        _ => panic!("a png converted to jpeg is encoded"),
    }
    assert!(matches!(
        optimize_image_file("/tmp/p.png", "/tmp/p.min.png", &indexed_png(), None, OutputFormatSetting::Original),
        Ok(Encoding::Delegate { format: ImageFormat::Png, limits: None })
    ));
    assert!(matches!(
        optimize_image_file("/tmp/a.gif", "/tmp/a.min.gif", b"GIF89a", Some((Some(40), Some(40))), OutputFormatSetting::Avif),
        Ok(Encoding::Delegate { format: ImageFormat::Gif, limits: None })
    ));
    assert!(matches!(
        optimize_image_file("/tmp/a.heic", "/tmp/a.min.jpg", b"", None, OutputFormatSetting::Jpeg),
        Err(e) if e == ErrorPayload::heic_unsupported_platform()
    ));
    assert!(decode_heic("/tmp/a.heic").is_err());
}

fn apng_fixture_bytes() -> Vec<u8> {
    let mut data = Vec::new();
    data.extend_from_slice(b"\x89PNG\r\n\x1a\n");
    data.extend_from_slice(&[
        0x00, 0x00, 0x00, 0x0d, b'I', b'H', b'D', b'R', 0x00, 0x00, 0x00, 0x01, 0x00, 0x00, 0x00,
        0x01, 0x08, 0x06, 0x00, 0x00, 0x00, 0x1f, 0x15, 0xc4, 0x89,
    ]);
    data.extend_from_slice(&[
        0x00, 0x00, 0x00, 0x08, b'a', b'c', b'T', b'L', 0x00, 0x00, 0x00, 0x02, 0x00, 0x00, 0x00,
        0x00, 0x00, 0x00, 0x00, 0x00,
    ]);
    data.extend_from_slice(&[
        0x00, 0x00, 0x00, 0x00, b'I', b'E', b'N', b'D', 0xae, 0x42, 0x60, 0x82,
    ]);
    data
}

#[test]
fn rejects_animated_png() {
    let error = optimize_image_file(
        "/tmp/animated.png",
        "/tmp/output.min.png",
        &apng_fixture_bytes(),
        None,
        OutputFormatSetting::Original,
    )
    .err()
    .expect("animated png");
    assert_eq!(error, ErrorPayload::animated_not_supported());
}

#[test]
fn converted_and_scaled_pngs_are_encoded_here() {
    let rgb = image::RgbImage::from_pixel(40, 20, image::Rgb([10, 200, 30]));
    let mut jpeg = std::io::Cursor::new(Vec::new());
    image::DynamicImage::from(rgb).write_to(&mut jpeg, image::ImageFormat::Jpeg).expect("jpeg");
    match optimize_image_file("/tmp/a.jpg", "/tmp/a.min.png", jpeg.get_ref(), Some((Some(20), None)), OutputFormatSetting::Png) {
        Ok(Encoding::Bytes { data, resized }) => {
            assert_eq!(&data[..4], b"\x89PNG");
            assert_eq!(resized, Some(DimensionChange { from_width: 40, from_height: 20, to_width: 20, to_height: 10 }));
        }
        _ => panic!("a jpeg converted to png is encoded"),
    }
}

#[test]
fn svg_is_optimized_as_text() {
    let svg = b"<?xml version=\"1.0\"?>\n<!DOCTYPE svg>\n<svg xmlns=\"http://www.w3.org/2000/svg\" width=\"10\" height=\"10\">\n  <!-- comment -->\n  <rect width=\"10\" height=\"10\" fill=\"#ff0000\"/>\n</svg>\n";
    match optimize_image_file("/tmp/a.svg", "/tmp/a.min.svg", svg, Some((Some(5), None)), OutputFormatSetting::Jpeg) {
        Ok(Encoding::Bytes { data, resized }) => {
            let text = String::from_utf8(data).expect("text");
            assert!(text.contains("<svg"));
            assert!(!text.contains("<!DOCTYPE"));
            assert!(!text.contains("comment"));
            assert!(resized.is_none());
        }
        _ => panic!("svg is optimized here"),
    }
    assert!(matches!(
        optimize_image_file("/tmp/b.svg", "/tmp/b.min.svg", &[0xff, 0xfe, 0x00], None, OutputFormatSetting::Original),
        Err(e) if e.code == "io"
    ));
}

#[test]
fn png_recompression_makes_no_reductions() {
    let options = png_recompress_options();
    assert!(!options.bit_depth_reduction && !options.color_type_reduction && !options.palette_reduction);
    assert!(!options.grayscale_reduction && !options.scale_16);
    assert_eq!(options.strip, ChunkStripping::Safe);
    assert!(options.fast_evaluation);
}

#[test]
fn palette_pngs_are_written_and_recompressed() {
    let bytes = dropslim::image::write_palette_png(2, 2, &[255, 0, 0, 0, 255, 0], &[255, 128], &[0, 1, 1, 0]).expect("palette png");
    assert_eq!(&bytes[..4], b"\x89PNG");
    assert!(png_uses_palette(&bytes).expect("still a png"));
    assert!(dropslim::image::write_palette_png(2, 2, &[255, 0, 0], &[], &[0, 1]).is_err());
}
