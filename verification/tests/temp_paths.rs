use dropslim::temp_paths::{dropslim_temp_path, TempFile};

#[test]
fn builds_dropslim_temp_path() {
    let output = "/tmp/photo.min.png";
    assert_eq!(dropslim_temp_path(output), "/tmp/photo.min.dropslim.png");
}

#[test]
fn temp_path_of_a_name_without_extension() {
    assert_eq!(dropslim_temp_path("/tmp/photo"), "/tmp/photo.dropslim");
    let temp = TempFile::at("out/a.webp");
    assert_eq!(temp.path(), "out/a.dropslim.webp");
    assert_ne!(temp.path(), "out/a.webp");
}

#[test]
fn temp_path_is_never_the_output() {
    for output in ["/tmp/photo.min.png", "photo.png", "/a/b/c", "/tmp/.hidden"] {
        assert_ne!(dropslim_temp_path(output), output);
    }
}
