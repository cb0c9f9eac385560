use cdpaint_shell::state_codec::{encode_window_state, parse_window_state};
use cdpaint_shell::window_state::{close_record, default_window_state, initial_tracker, on_focus_changed,
    on_moved, on_resized, plan_install, SavedWindowState, WindowStateTracker};

fn rect(x: i32, y: i32, width: u32, height: u32, maximized: bool) -> SavedWindowState {
    SavedWindowState { x, y, width, height, maximized }
}

#[test]
fn encoding_is_the_exact_record_text() {
    let s = rect(10, 20, 300, 400, false);
    assert_eq!(
        encode_window_state(&s),
        String::from("{\"x\":10,\"y\":20,\"width\":300,\"height\":400,\"maximized\":false}")
    );
    let t = rect(-5, -7, 1, 2, true);
    assert_eq!(
        encode_window_state(&t),
        String::from("{\"x\":-5,\"y\":-7,\"width\":1,\"height\":2,\"maximized\":true}")
    );
}

#[test]
fn saved_state_round_trips_through_the_codec() {
    let cases = [
        rect(0, 0, 1200, 800, false),
        rect(-100, 50, 1920, 1057, true),
        rect(i32::MIN, i32::MAX, u32::MAX, 0, false),
        rect(7, -7, 1, 1, true),
    ];
    for s in cases {
        let text = encode_window_state(&s);
        assert_eq!(parse_window_state(&text), Some(s));
    }
}

#[test]
fn whitespace_between_tokens_is_insignificant() {
    let pretty = "{\n  \"x\": 10,\n  \"y\": 20,\n  \"width\": 300,\n  \"height\": 400,\n  \"maximized\": false\n}\n";
    assert_eq!(parse_window_state(pretty), Some(rect(10, 20, 300, 400, false)));
    let spaced = " { \"x\" : -5 , \"y\" : 7 , \"width\" : 1 , \"height\" : 2 , \"maximized\" : true } ";
    assert_eq!(parse_window_state(spaced), Some(rect(-5, 7, 1, 2, true)));
}

#[test]
fn whitespace_inside_a_number_is_malformed() {
    assert_eq!(
        parse_window_state("{\"x\":- 1,\"y\":2,\"width\":3,\"height\":4,\"maximized\":true}"),
        None
    );
    assert_eq!(
        parse_window_state("{\"x\":1 2,\"y\":2,\"width\":3,\"height\":4,\"maximized\":true}"),
        None
    );
}

#[test]
fn malformed_records_parse_to_nothing() {
    assert_eq!(parse_window_state(""), None);
    assert_eq!(parse_window_state("{}"), None);
    assert_eq!(parse_window_state("not json"), None);
    assert_eq!(parse_window_state("{\"x\":1,\"y\":2"), None);
    assert_eq!(
        parse_window_state("{\"x\":01,\"y\":2,\"width\":3,\"height\":4,\"maximized\":true}"),
        None
    );
    assert_eq!(
        parse_window_state("{\"x\":1,\"y\":2,\"width\":99999999999,\"height\":4,\"maximized\":true}"),
        None
    );
    assert_eq!(
        parse_window_state("{\"x\":1,\"y\":2,\"width\":-3,\"height\":4,\"maximized\":true}"),
        None
    );
    assert_eq!(
        parse_window_state("{\"x\":1,\"y\":2,\"width\":3,\"height\":4,\"maximized\":maybe}"),
        None
    );
    assert_eq!(
        parse_window_state("{\"x\":1,\"y\":2,\"width\":3,\"height\":4,\"maximized\":false}extra"),
        None
    );
}

#[test]
fn install_plan_applies_saved_geometry() {
    let none_plan = plan_install(None);
    assert_eq!(none_plan.set_size, None);
    assert_eq!(none_plan.set_position, None);
    assert!(!none_plan.schedule_maximize);

    let plan = plan_install(Some(rect(3, 4, 800, 600, true)));
    assert_eq!(plan.set_size, Some((800, 600)));
    assert_eq!(plan.set_position, Some((3, 4)));
    assert!(plan.schedule_maximize);

    let degenerate = plan_install(Some(rect(3, 4, 0, 600, false)));
    assert_eq!(degenerate.set_size, None);
    assert_eq!(degenerate.set_position, Some((3, 4)));
    assert!(!degenerate.schedule_maximize);
}

#[test]
fn initial_tracker_prefers_restored_record_then_live_then_default() {
    let saved = rect(1, 2, 640, 480, false);
    let live = rect(9, 9, 100, 100, false);
    let t = initial_tracker(Some(saved), Some(live));
    assert_eq!(t.last_normal, saved);
    assert!(!t.last_maximized);

    let saved_max = rect(1, 2, 640, 480, true);
    let t2 = initial_tracker(Some(saved_max), Some(live));
    assert_eq!(t2.last_normal, live);
    assert!(t2.last_maximized);

    let t3 = initial_tracker(None, None);
    assert_eq!(t3.last_normal, default_window_state());
    assert_eq!(t3.last_normal, rect(0, 0, 1200, 800, false));
    assert!(!t3.last_maximized);
}

#[test]
fn move_and_resize_update_only_while_restored() {
    let mut t = WindowStateTracker { last_normal: rect(0, 0, 800, 600, false), last_maximized: false };
    on_moved(&mut t, 15, 25, false);
    assert_eq!((t.last_normal.x, t.last_normal.y), (15, 25));
    on_resized(&mut t, 1024, 768, false);
    assert_eq!((t.last_normal.width, t.last_normal.height), (1024, 768));
    on_moved(&mut t, 0, 0, true);
    on_resized(&mut t, 1920, 1080, true);
    assert!(t.last_maximized);
    assert_eq!((t.last_normal.x, t.last_normal.y), (15, 25));
    assert_eq!((t.last_normal.width, t.last_normal.height), (1024, 768));
    on_focus_changed(&mut t, false);
    assert!(!t.last_maximized);
    assert_eq!((t.last_normal.width, t.last_normal.height), (1024, 768));
}

#[test]
fn close_record_prefers_live_answers() {
    let t = WindowStateTracker { last_normal: rect(5, 6, 700, 500, false), last_maximized: true };
    let live = rect(50, 60, 900, 700, false);
    let restored_close = close_record(&t, Some(false), Some(live));
    assert_eq!((restored_close.x, restored_close.y), (50, 60));
    assert_eq!((restored_close.width, restored_close.height), (900, 700));
    assert!(!restored_close.maximized);

    let maximized_close = close_record(&t, Some(true), Some(live));
    assert_eq!((maximized_close.x, maximized_close.y), (5, 6));
    assert_eq!((maximized_close.width, maximized_close.height), (700, 500));
    assert!(maximized_close.maximized);

    let torn_down = close_record(&t, None, None);
    assert!(torn_down.maximized);
    assert_eq!((torn_down.x, torn_down.y), (5, 6));
}

#[test]
fn geometry_saved_at_close_is_restored_on_a_fresh_install() {
    let mut t = WindowStateTracker { last_normal: rect(0, 0, 800, 600, false), last_maximized: false };
    on_moved(&mut t, 40, 30, false);
    on_resized(&mut t, 1280, 720, false);
    on_resized(&mut t, 1920, 1080, true);
    let record = close_record(&t, Some(true), None);
    assert_eq!((record.width, record.height), (1280, 720));
    assert!(record.maximized);

    let text = encode_window_state(&record);
    let reloaded = parse_window_state(&text);
    assert_eq!(reloaded, Some(record));

    let fresh = initial_tracker(reloaded, None);
    assert!(fresh.last_maximized);
    let plan = plan_install(reloaded);
    assert_eq!(plan.set_size, Some((1280, 720)));
    assert_eq!(plan.set_position, Some((40, 30)));
    assert!(plan.schedule_maximize);
}
