use cdpaint_shell::paths::{is_allowed_write_path, is_allowed_write_extension, is_image_extension,
    is_image_path, normalize_device_path, normalize_to_absolute_path, parent_dir,
    path_is_absolute};

#[test]
fn image_extensions_accepted_case_insensitively() {
    assert!(is_image_extension(Some("png")));
    assert!(is_image_extension(Some("PNG")));
    assert!(is_image_extension(Some("Png")));
    assert!(is_image_extension(Some("jpg")));
    assert!(is_image_extension(Some("jpeg")));
    assert!(is_image_extension(Some("bmp")));
    assert!(is_image_extension(Some("gif")));
    assert!(is_image_extension(Some("webp")));
    assert!(is_image_extension(Some("WEBP")));
}

#[test]
fn non_image_extensions_rejected() {
    assert!(!is_image_extension(None));
    assert!(!is_image_extension(Some("")));
    assert!(!is_image_extension(Some("txt")));
    assert!(!is_image_extension(Some("exe")));
    assert!(!is_image_extension(Some("pn")));
    assert!(!is_image_extension(Some("pngx")));
    assert!(!is_image_extension(Some("svg")));
}

#[test]
fn write_list_adds_palette_but_read_list_does_not() {
    assert!(is_allowed_write_extension(Some("pal")));
    assert!(is_allowed_write_extension(Some("PAL")));
    assert!(is_allowed_write_extension(Some("png")));
    assert!(!is_allowed_write_extension(Some("txt")));
    assert!(!is_allowed_write_extension(None));
    assert!(!is_image_extension(Some("pal")));
}

#[test]
fn image_path_looks_at_final_component_extension() {
    assert!(is_image_path("/photos/cat.png", false));
    assert!(is_image_path("/photos/cat.PNG", false));
    assert!(is_image_path("relative/cat.jpg", false));
    assert!(!is_image_path("/photos/cat.txt", false));
    assert!(!is_image_path("/photos/cat", false));
    assert!(!is_image_path("/photos/.png", false));
    assert!(!is_image_path("/photos/cat.", false));
    assert!(!is_image_path("/photos.png/cat", false));
    assert!(is_image_path("C:\\photos\\cat.JPG", true));
    assert!(is_allowed_write_path("/out/save.pal", false));
    assert!(!is_allowed_write_path("/out/save", false));
}

#[test]
fn device_prefixes_are_stripped() {
    assert_eq!(normalize_device_path("\\\\?\\C:\\img\\a.png"), "C:\\img\\a.png");
    assert_eq!(normalize_device_path("\\\\?\\UNC\\server\\share\\a.png"), "\\\\server\\share\\a.png");
    assert_eq!(normalize_device_path("/plain/a.png"), "/plain/a.png");
    assert_eq!(normalize_device_path("  /padded/a.png  "), "/padded/a.png");
}

#[test]
fn absolute_path_rules_per_platform() {
    assert!(path_is_absolute("/a/b.png", false));
    assert!(!path_is_absolute("a/b.png", false));
    assert!(!path_is_absolute("", false));
    assert!(path_is_absolute("C:\\a\\b.png", true));
    assert!(path_is_absolute("c:/a/b.png", true));
    assert!(path_is_absolute("\\\\server\\share", true));
    assert!(!path_is_absolute("C:a.png", true));
    assert!(!path_is_absolute("\\a\\b.png", true));
}

#[test]
fn normalize_to_absolute_accepts_only_absolute_paths() {
    assert_eq!(normalize_to_absolute_path("/a/b.png", false), Ok(String::from("/a/b.png")));
    assert_eq!(
        normalize_to_absolute_path("\\\\?\\C:\\a\\b.png", true),
        Ok(String::from("C:\\a\\b.png"))
    );
    assert_eq!(
        normalize_to_absolute_path("rel/b.png", false),
        Err(String::from("path must be absolute"))
    );
}

#[test]
fn parent_directory_of_a_path() {
    assert_eq!(parent_dir("/a/b/c.png", false), Some(String::from("/a/b")));
    assert_eq!(parent_dir("/c.png", false), Some(String::from("/")));
    assert_eq!(parent_dir("c.png", false), None);
    assert_eq!(parent_dir("C:\\x.png", true), Some(String::from("C:\\")));
    assert_eq!(parent_dir("C:\\d\\x.png", true), Some(String::from("C:\\d")));
}
