use dropslim::formats::{is_supported_extension, is_supported_path, ImageFormat, OutputFormatSetting};

#[test]
fn formats_recognizes_supported_extensions() {
    assert!(is_supported_extension("PNG"));
    assert!(is_supported_extension("heic"));
    assert!(is_supported_extension("HEIF"));
    assert!(!is_supported_extension("txt"));
}

#[test]
fn formats_maps_paths_to_formats() {
    assert_eq!(ImageFormat::from_path("photo.JPG"), Some(ImageFormat::Jpeg));
    assert_eq!(ImageFormat::from_path("notes.txt"), None);
}

#[test]
fn formats_output_format_defaults_to_original() {
    assert_eq!(OutputFormatSetting::default(), OutputFormatSetting::Original);
    assert!(OutputFormatSetting::Original.target_format().is_none());
    assert!(OutputFormatSetting::Original.extension().is_none());
}

#[test]
fn output_format_maps_targets() {
    assert_eq!(OutputFormatSetting::Jpeg.target_format(), Some(ImageFormat::Jpeg));
    assert_eq!(OutputFormatSetting::Jpeg.extension(), Some("jpg"));
    assert_eq!(OutputFormatSetting::Png.target_format(), Some(ImageFormat::Png));
    assert_eq!(OutputFormatSetting::Png.extension(), Some("png"));
    assert_eq!(OutputFormatSetting::Webp.target_format(), Some(ImageFormat::Webp));
    assert_eq!(OutputFormatSetting::Webp.extension(), Some("webp"));
    assert_eq!(OutputFormatSetting::Avif.target_format(), Some(ImageFormat::Avif));
    assert_eq!(OutputFormatSetting::Avif.extension(), Some("avif"));
}

#[test]
fn extensions_match_in_any_case() {
    for ext in ["svg", "jpg", "jpeg", "png", "gif", "webp", "avif", "heic", "heif"] {
        assert!(is_supported_extension(ext));
        assert!(is_supported_extension(&ext.to_ascii_uppercase()));
        assert_eq!(
            ImageFormat::from_extension(ext),
            ImageFormat::from_extension(&ext.to_ascii_uppercase())
        );
    }
    assert_eq!(ImageFormat::from_extension("JpEg"), Some(ImageFormat::Jpeg));
    assert_eq!(ImageFormat::from_extension("heif"), Some(ImageFormat::Heic));
    assert_eq!(ImageFormat::from_extension("Svg"), Some(ImageFormat::Svg));
    assert_eq!(ImageFormat::from_extension("gif"), Some(ImageFormat::Gif));
    assert_eq!(ImageFormat::from_extension("avif"), Some(ImageFormat::Avif));
    assert_eq!(ImageFormat::from_extension("webp"), Some(ImageFormat::Webp));
    assert_eq!(ImageFormat::from_extension(""), None);
    assert_eq!(ImageFormat::from_extension("pngx"), None);
    assert!(!is_supported_extension("tiff"));
}

#[test]
fn paths_are_judged_by_their_extension() {
    assert!(is_supported_path("/tmp/photo.min.png"));
    assert!(is_supported_path("shots/a.WEBP"));
    assert!(!is_supported_path("/tmp/readme"));
    assert!(!is_supported_path("/tmp/.png"));
    assert!(!is_supported_path("/tmp/notes.txt"));
    assert_eq!(ImageFormat::from_path("/a/b/c.heic"), Some(ImageFormat::Heic));
    assert_eq!(ImageFormat::from_path("/a/b.png/"), Some(ImageFormat::Png));
    assert_eq!(ImageFormat::from_path("/a/b/.."), None);
}

#[test]
fn output_extension_names_the_target_format() {
    for setting in [
        OutputFormatSetting::Original,
        OutputFormatSetting::Jpeg,
        OutputFormatSetting::Png,
        OutputFormatSetting::Webp,
        OutputFormatSetting::Avif,
    ] {
        assert_eq!(
            setting.extension().and_then(ImageFormat::from_extension),
            setting.target_format()
        );
    }
}
