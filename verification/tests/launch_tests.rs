use cdpaint_shell::launch::{candidate_decision, collect_image_paths, file_url_to_path,
    first_file_path, is_current_exe, is_openable_image, normalize_candidate, normalize_launch_arg};

#[test]
fn plain_arguments_are_trimmed_and_unquoted() {
    assert_eq!(normalize_launch_arg("  /a/b.png  ", false), Some(String::from("/a/b.png")));
    assert_eq!(normalize_launch_arg("\"/a/b.png\"", false), Some(String::from("/a/b.png")));
    assert_eq!(normalize_launch_arg(" \"/a/b.png\" ", false), Some(String::from("/a/b.png")));
    assert_eq!(normalize_launch_arg("/a/b.png", false), Some(String::from("/a/b.png")));
}

#[test]
fn empty_arguments_yield_nothing() {
    assert_eq!(normalize_launch_arg("", false), None);
    assert_eq!(normalize_launch_arg("   ", false), None);
    assert_eq!(normalize_launch_arg("\"\"", false), None);
}

#[test]
fn device_prefix_stripped_from_arguments() {
    assert_eq!(
        normalize_launch_arg("\\\\?\\C:\\img\\a.png", true),
        Some(String::from("C:\\img\\a.png"))
    );
}

#[test]
fn file_url_arguments_resolve_like_bare_paths() {
    let via_url = normalize_launch_arg("file:///tmp/img.png", false);
    let bare = normalize_launch_arg("/tmp/img.png", false);
    assert_eq!(via_url, Some(String::from("/tmp/img.png")));
    assert_eq!(via_url, bare);
}

#[test]
fn file_url_with_encoded_space_decodes() {
    assert_eq!(
        normalize_launch_arg("file:///tmp/my%20img.png", false),
        Some(String::from("/tmp/my img.png"))
    );
}

#[test]
fn unconvertible_file_url_uses_windows_fallback() {
    assert_eq!(
        file_url_to_path("file://server/share/img.png", true),
        Some(String::from("server\\share\\img.png"))
    );
    assert_eq!(file_url_to_path("file://server/share/img.png", false), None);
}

#[test]
fn unparsable_url_yields_nothing() {
    assert_eq!(normalize_launch_arg("file://[bad", false), None);
    assert_eq!(file_url_to_path("not a url", false), None);
    assert_eq!(file_url_to_path("not a url", true), None);
}

#[test]
fn non_file_scheme_yields_nothing() {
    assert_eq!(file_url_to_path("http://example.com/a.png", false), None);
    assert_eq!(file_url_to_path("http://example.com/a.png", true), None);
    assert_eq!(file_url_to_path("https://example.com/a.png", true), None);
}

#[test]
fn acceptance_rule_over_probe_answers() {
    assert!(candidate_decision("/photos/cat.png", false, false, true));
    assert!(!candidate_decision("/photos/cat.png", false, true, true));
    assert!(!candidate_decision("/photos/cat.png", false, false, false));
    assert!(!candidate_decision("/photos/cat.txt", false, false, true));
    assert!(!candidate_decision("/photos/cat", false, false, true));
}

#[test]
fn bare_file_scheme_resolves_to_root() {
    assert_eq!(normalize_launch_arg("file://", false), Some(String::from("/")));
}

#[test]
fn existing_non_image_file_is_rejected() {
    let args = vec![String::from("/etc/hostname"), String::from("/etc/passwd")];
    assert_eq!(first_file_path(&args, false, None), None);
    assert!(collect_image_paths(&args, false, None).is_empty());
    assert!(!is_openable_image("/etc/hostname", false, None));
}

#[test]
fn missing_image_file_is_rejected() {
    let args = vec![String::from("/definitely/not/there/cat.png")];
    assert_eq!(first_file_path(&args, false, None), None);
    assert!(collect_image_paths(&args, false, None).is_empty());
}

#[test]
fn empty_and_self_arguments_are_skipped() {
    let args = vec![
        String::from(""),
        String::from("/etc/hostname"),
        String::from("/definitely/not/there/cat.png"),
    ];
    assert_eq!(first_file_path(&args, false, Some("/etc/hostname")), None);
}

#[test]
fn current_exe_detected_under_any_spelling() {
    assert!(is_current_exe("/etc/hostname", Some("/etc/hostname")));
    assert!(is_current_exe("/etc/../etc/hostname", Some("/etc/hostname")));
    assert!(!is_current_exe("/etc/hostname", None));
    assert!(!is_current_exe("/etc/passwd", Some("/etc/hostname")));
    let via_url = normalize_launch_arg("file:///etc/../etc/hostname", false).unwrap();
    assert!(is_current_exe(&via_url, Some("/etc/hostname")));
}

#[test]
fn candidates_without_image_extension_never_accepted() {
    assert!(!is_openable_image("/etc/hostname", false, None));
    assert!(!is_openable_image("/etc/passwd", false, None));
    assert!(!is_openable_image("/bin/sh", false, None));
}

#[test]
fn normalize_candidate_resolves_dotted_segments() {
    assert_eq!(normalize_candidate("/etc/../etc/hostname"), String::from("/etc/hostname"));
    assert_eq!(
        normalize_candidate("/definitely/not/there/cat.png"),
        String::from("/definitely/not/there/cat.png")
    );
}
