use dropslim::desktop::InstallQuickActionResult;
use dropslim::heic::output_type_identifier;
use dropslim::desktop::{pick_paths, pick_save_folder, NativeUiState, NativeUiStrings};
use dropslim::tools::{locate_gifsicle, trim_text, bundled_gifsicle_path, gifsicle_binary_name, gifsicle_binary_name_for, gifsicle_path};

#[test]
fn english_texts_are_the_defaults() {
    let strings = NativeUiStrings::english_defaults();
    assert_eq!(strings.preferences, "Preferences…");
    assert_eq!(strings.window, "Window");
    assert_eq!(strings.pick_images, "Choose images or folders");
    assert_eq!(strings.pick_save_folder, "Choose a save folder");
    assert_eq!(NativeUiState::default().strings.window, "Window");
    assert_eq!(NativeUiStrings::default().window, "");
}

#[test]
fn pickers_are_macos_only_here() {
    assert_eq!(pick_paths(), Err("pick_paths is only supported on macOS".to_string()));
    assert_eq!(pick_save_folder(), Err("pick_save_folder is only supported on macOS".to_string()));
}

#[test]
fn bundled_gifsicle_lies_under_vendor() {
    assert_eq!(gifsicle_binary_name_for('\\'), "gifsicle.exe");
    assert_eq!(gifsicle_binary_name_for('/'), "gifsicle");
    assert_eq!(bundled_gifsicle_path("/app", "gifsicle"), "/app/vendor/gifsicle/gifsicle");
    assert_eq!(gifsicle_path("/app", false), None);
    assert_eq!(
        gifsicle_path("/app", true),
        Some(format!("/app/vendor/gifsicle/{}", gifsicle_binary_name()))
    );
}

#[test]
fn quick_action_answers_carry_a_title() {
    let installed = InstallQuickActionResult::installed();
    assert!(installed.ok);
    assert!(installed.message.starts_with("Finder Quick Action installed."));
    assert_eq!(installed.dialog_title(), "Finder Quick Action installed");
    let failed = InstallQuickActionResult::failed("Permission denied".to_string());
    assert!(!failed.ok);
    assert_eq!(failed.message, "Permission denied");
    assert_eq!(failed.dialog_title(), "Installation failed");
}

#[test]
fn heif_outputs_keep_their_type() {
    assert_eq!(output_type_identifier("/tmp/a.min.HEIF"), "public.heif");
    assert_eq!(output_type_identifier("/tmp/a.min.heic"), "public.heic");
    assert_eq!(output_type_identifier("/tmp/a"), "public.heic");
}

#[test]
fn gifsicle_comes_from_the_setting_then_the_bundle_then_the_path() {
    assert_eq!(trim_text("  /opt/gifsicle\n"), "/opt/gifsicle");
    let on_path = vec!["/usr/local/bin/gifsicle".to_string(), "/usr/bin/gifsicle".to_string()];
    let none = vec![false, false];
    let second = vec![false, true];
    assert_eq!(
        locate_gifsicle(Some(" /opt/gifsicle "), true, "/app/vendor/gifsicle/gifsicle", true, &on_path, &second),
        Some("/opt/gifsicle".to_string())
    );
    assert_eq!(
        locate_gifsicle(Some("   "), true, "/app/vendor/gifsicle/gifsicle", true, &on_path, &second),
        Some("/app/vendor/gifsicle/gifsicle".to_string())
    );
    assert_eq!(
        locate_gifsicle(Some("/missing"), false, "/app/vendor/gifsicle/gifsicle", false, &on_path, &second),
        Some("/usr/bin/gifsicle".to_string())
    );
    assert_eq!(locate_gifsicle(None, false, "/app/vendor/gifsicle/gifsicle", false, &on_path, &none), None);
}
