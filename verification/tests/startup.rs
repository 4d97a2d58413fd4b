use dropslim::startup::{
    accepts_startup_path, consume_startup_paths, filter_paths, is_app_executable_path,
    is_startup_path, StartupFacts, StartupState,
};

#[test]
fn consume_startup_paths_drains_state() {
    let mut state = StartupState {
        paths: vec!["/tmp/a.png".to_string(), "/tmp/b.jpg".to_string()],
    };

    let first = consume_startup_paths(&mut state);
    assert_eq!(first, vec!["/tmp/a.png".to_string(), "/tmp/b.jpg".to_string()]);

    let second = consume_startup_paths(&mut state);
    assert!(second.is_empty());
}

#[test]
fn rejects_flags_and_relative_paths() {
    assert!(!is_startup_path("--foo", Some("/work/--foo".to_string()), true, None, false));
    assert!(!is_startup_path(".", Some("/work".to_string()), true, None, false));
    assert!(!is_startup_path("photo.png", Some("/work/photo.png".to_string()), true, None, false));
}

#[test]
fn rejects_app_executable_paths() {
    let bundled = "/Applications/DropSlim.app/Contents/MacOS/dropslim";
    assert!(!is_startup_path(bundled, Some(bundled.to_string()), true, None, true));
    assert!(is_app_executable_path(bundled, None, true));
    assert!(!is_app_executable_path(bundled, None, false));
}

fn facts(resolved: Option<&str>, exists: bool, exe: Option<&str>) -> StartupFacts {
    StartupFacts {
        absolute: true,
        resolved: resolved.map(|p| p.to_string()),
        exists,
        current_exe: exe.map(|p| p.to_string()),
        app_bundles: false,
    }
}

#[test]
fn keeps_existing_absolute_paths_that_are_not_the_app() {
    assert!(accepts_startup_path("/tmp/a.png", &facts(Some("/tmp/a.png"), true, Some("/bin/app"))));
    assert!(!accepts_startup_path("/tmp/a.png", &facts(Some("/tmp/a.png"), false, None)));
    assert!(!accepts_startup_path("/tmp/a.png", &facts(None, false, None)));
    assert!(!accepts_startup_path("/bin/app", &facts(Some("/bin/app"), true, Some("/bin/app"))));
    let kept = filter_paths(
        vec!["/bin/app".to_string(), "/tmp/a.png".to_string(), "-v".to_string()],
        &vec![
            facts(Some("/bin/app"), true, Some("/bin/app")),
            facts(Some("/tmp/a.png"), true, Some("/bin/app")),
            facts(Some("/work/-v"), true, Some("/bin/app")),
        ],
    );
    assert_eq!(kept, vec!["/tmp/a.png".to_string()]);
}

#[test]
fn accepts_absolute_existing_paths_that_resolve() {
    assert!(is_startup_path("/tmp/a.png", Some("/tmp/a.png".to_string()), true, Some("/bin/app".to_string()), false));
    assert!(!is_startup_path("/tmp/a.png", Some("/tmp/a.png".to_string()), false, None, false));
    assert!(!is_startup_path("/bin/app", Some("/bin/app".to_string()), true, Some("/bin/app".to_string()), false));
}
