use cdpaint_shell::registry::{next_window_label, route_secondary_path, PendingFiles};

#[test]
fn take_after_put_returns_the_path_exactly_once() {
    let mut reg = PendingFiles::new();
    reg.put("win-1", "/photos/cat.png");
    assert_eq!(reg.take("win-1"), Some(String::from("/photos/cat.png")));
    assert_eq!(reg.take("win-1"), None);
}

#[test]
fn take_on_unknown_id_returns_nothing() {
    let mut reg = PendingFiles::new();
    assert_eq!(reg.take("never-put"), None);
    reg.put("a", "/x.png");
    assert_eq!(reg.take("b"), None);
    assert_eq!(reg.take("a"), Some(String::from("/x.png")));
}

#[test]
fn put_overwrites_an_existing_entry() {
    let mut reg = PendingFiles::new();
    reg.put("w", "/old.png");
    reg.put("w", "/new.png");
    assert_eq!(reg.len(), 1);
    assert_eq!(reg.take("w"), Some(String::from("/new.png")));
    assert_eq!(reg.take("w"), None);
}

#[test]
fn entries_for_other_windows_are_untouched() {
    let mut reg = PendingFiles::new();
    reg.put("w1", "/a.png");
    reg.put("w2", "/b.png");
    assert_eq!(reg.take("w1"), Some(String::from("/a.png")));
    assert_eq!(reg.take("w2"), Some(String::from("/b.png")));
}

#[test]
fn window_labels_carry_timestamp_and_counter() {
    assert_eq!(next_window_label(5, 7), String::from("file-5-7"));
    assert_eq!(next_window_label(1699999999999, 42), String::from("file-1699999999999-42"));
    assert_eq!(next_window_label(0, 0), String::from("file-0-0"));
    assert_eq!(
        next_window_label(0, u64::MAX),
        String::from("file-0-18446744073709551615")
    );
}

#[test]
fn window_labels_with_distinct_counters_differ() {
    assert_ne!(next_window_label(1, 12), next_window_label(11, 2));
    assert_ne!(next_window_label(7, 1), next_window_label(7, 2));
}

#[test]
fn second_launch_with_two_images_makes_two_windows() {
    let mut reg = PendingFiles::new();
    reg.put("main", "/already/open.png");
    assert_eq!(reg.take("main"), Some(String::from("/already/open.png")));
    let mut counter: u64 = 1;
    let label1 = route_secondary_path(&mut reg, true, &mut counter, 100, "/p/one.png").unwrap();
    let label2 = route_secondary_path(&mut reg, true, &mut counter, 100, "/p/two.png").unwrap();
    assert_eq!(label1, String::from("file-100-1"));
    assert_eq!(label2, String::from("file-100-2"));
    assert_ne!(label1, label2);
    assert_eq!(counter, 3);
    assert_eq!(reg.len(), 2);
    assert_eq!(reg.take("main"), None);
    assert_eq!(reg.take(&label1), Some(String::from("/p/one.png")));
    assert_eq!(reg.take(&label2), Some(String::from("/p/two.png")));
}

#[test]
fn routing_with_no_window_open_broadcasts_and_registers_nothing() {
    let mut reg = PendingFiles::new();
    let mut counter: u64 = 1;
    let routed = route_secondary_path(&mut reg, false, &mut counter, 55, "/p/one.png");
    assert_eq!(routed, None);
    assert_eq!(counter, 1);
    assert_eq!(reg.len(), 0);
}
