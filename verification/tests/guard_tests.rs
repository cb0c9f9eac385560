use cdpaint_shell::guard::{read_access_decision, read_image_file_check, write_access_decision,
    write_allowed_file_check};

#[test]
fn write_rejects_disallowed_extensions() {
    assert_eq!(
        write_access_decision("/tmp/tool.exe", false, true),
        Err(String::from("file extension not allowed"))
    );
    assert_eq!(
        write_access_decision("/tmp/notes.txt", false, true),
        Err(String::from("file extension not allowed"))
    );
    assert_eq!(
        write_access_decision("/tmp/noextension", false, true),
        Err(String::from("file extension not allowed"))
    );
}

#[test]
fn write_rejects_relative_paths() {
    assert_eq!(
        write_access_decision("photos/cat.png", false, true),
        Err(String::from("path must be absolute"))
    );
    assert_eq!(
        write_access_decision("cat.png", false, true),
        Err(String::from("path must be absolute"))
    );
}

#[test]
fn write_accepts_png_with_existing_parent() {
    assert_eq!(
        write_access_decision("/tmp/save.png", false, true),
        Ok(String::from("/tmp/save.png"))
    );
    assert_eq!(
        write_access_decision("/tmp/palette.pal", false, true),
        Ok(String::from("/tmp/palette.pal"))
    );
}

#[test]
fn write_fails_with_directory_reason_when_parent_missing() {
    assert_eq!(
        write_access_decision("/tmp/save.png", false, false),
        Err(String::from("target directory does not exist"))
    );
}

#[test]
fn write_check_probes_the_real_parent_directory() {
    assert_eq!(
        write_allowed_file_check("/tmp/probe-target.png", false),
        Ok(String::from("/tmp/probe-target.png"))
    );
    assert_eq!(
        write_allowed_file_check("/definitely/not/there/save.png", false),
        Err(String::from("target directory does not exist"))
    );
    assert_eq!(
        write_allowed_file_check("relative.png", false),
        Err(String::from("path must be absolute"))
    );
}

#[test]
fn write_normalizes_device_prefix_before_checking() {
    assert_eq!(
        write_access_decision("\\\\?\\C:\\art\\save.png", true, true),
        Ok(String::from("C:\\art\\save.png"))
    );
}

#[test]
fn read_requires_absolute_existing_image() {
    assert_eq!(
        read_access_decision("photos/cat.png", false, true),
        Err(String::from("path must be absolute"))
    );
    assert_eq!(
        read_access_decision("/photos/cat.png", false, false),
        Err(String::from("path is not an existing file"))
    );
    assert_eq!(
        read_access_decision("/etc/hostname", false, true),
        Err(String::from("only image files can be read"))
    );
    assert_eq!(
        read_access_decision("/photos/cat.png", false, true),
        Ok(String::from("/photos/cat.png"))
    );
}

#[test]
fn read_check_probes_the_real_file() {
    assert_eq!(
        read_image_file_check("/definitely/not/there/cat.png", false),
        Err(String::from("path is not an existing file"))
    );
    assert_eq!(
        read_image_file_check("/etc/hostname", false),
        Err(String::from("only image files can be read"))
    );
    assert_eq!(
        read_image_file_check("rel/cat.png", false),
        Err(String::from("path must be absolute"))
    );
}
