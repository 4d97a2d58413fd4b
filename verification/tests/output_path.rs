use dropslim::formats::OutputFormatSetting;
use dropslim::output_path::{
    blank, build_output_path, custom_save_folder_missing, output_directory, UserSettings,
};

#[test]
fn empty_savepath_is_missing() {
    assert!(custom_save_folder_missing(&UserSettings {
        folderswitch: false,
        savepath: Some(vec![]),
        ..Default::default()
    }));
}

#[test]
fn blank_savepath_is_missing() {
    assert!(custom_save_folder_missing(&UserSettings {
        folderswitch: false,
        savepath: Some(vec!["  ".into()]),
        ..Default::default()
    }));
}

#[test]
fn dimension_limits_default_off() {
    assert!(UserSettings::default().dimension_limits().is_none());
}

#[test]
fn dimension_limits_require_toggle_and_value() {
    assert!(UserSettings {
        limit_dimensions: true,
        max_width: None,
        max_height: None,
        ..Default::default()
    }
    .dimension_limits()
    .is_none());

    assert_eq!(
        UserSettings {
            limit_dimensions: true,
            max_width: Some(2000),
            max_height: None,
            ..Default::default()
        }
        .dimension_limits(),
        Some((Some(2000), None))
    );

    assert!(UserSettings {
        limit_dimensions: false,
        max_width: Some(2000),
        max_height: Some(1500),
        ..Default::default()
    }
    .dimension_limits()
    .is_none());
}

#[test]
fn output_path_output_format_defaults_to_original() {
    assert_eq!(UserSettings::default().output_format, OutputFormatSetting::Original);
}

#[test]
fn save_folder_is_not_needed_beside_the_source() {
    assert!(!custom_save_folder_missing(&UserSettings {
        folderswitch: true,
        savepath: None,
        ..Default::default()
    }));
    assert!(!custom_save_folder_missing(&UserSettings {
        folderswitch: false,
        savepath: Some(vec![" /exports ".into()]),
        ..Default::default()
    }));
    assert!(blank("\u{3000}\t\n"));
    assert!(!blank(" x "));
}

#[test]
fn adds_min_suffix_beside_the_source() {
    assert_eq!(build_output_path("/tmp/photo.png", &UserSettings::default()), "/tmp/photo.min.png");
    assert_eq!(
        build_output_path("/tmp/photo.png", &UserSettings { suffix: false, ..Default::default() }),
        "/tmp/photo.png"
    );
    assert_eq!(
        build_output_path("/tmp/photo.png", &UserSettings { subfolder: true, ..Default::default() }),
        "/tmp/minified/photo.min.png"
    );
    assert_eq!(output_directory("photo.png", &UserSettings::default()), "");
}

#[test]
fn output_takes_the_target_format_extension_and_the_save_folder() {
    let settings = UserSettings {
        folderswitch: false,
        savepath: Some(vec!["/exports".into()]),
        output_format: OutputFormatSetting::Jpeg,
        ..Default::default()
    };
    assert_eq!(build_output_path("/in/nested/photo.png", &settings), "/exports/photo.min.jpg");
    assert_eq!(build_output_path("/in/README", &UserSettings::default()), "/in/README.min");
}

#[test]
fn suffixed_output_is_never_the_source() {
    for input in ["/tmp/a.min", "/tmp/a.", "/tmp/a", "/tmp/a.min.png", "/tmp/.png"] {
        assert_ne!(build_output_path(input, &UserSettings::default()), input);
    }
}
