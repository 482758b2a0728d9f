use lcn_core::settings;
use lcn_core::settings::{
    get, get_bool, get_i32, parse_entries, render_entries, set_bool, set_i32, THEME, VOLUME,
    WINDOW_HEIGHT, WINDOW_MAXIMIZED, WINDOW_WIDTH,
};

#[test]
fn reads_trimmed_entries_later_line_wins() {
    let content = "  theme = dark \nnot a setting\nvolume=0.5\ntheme=light\r\n";
    assert_eq!(get(content, "theme").as_deref(), Some("light"));
    assert_eq!(get(content, "volume").as_deref(), Some("0.5"));
    assert_eq!(get(content, "missing"), None);
    assert_eq!(get("", "theme"), None);
    // Only the first '=' splits: the value may hold more.
    assert_eq!(get("k=a=b\n", "k").as_deref(), Some("a=b"));
}

#[test]
fn writes_sorted_lines() {
    let content = "volume=0.5\ntheme=dark\n";
    let written = settings::set(content, "window_width", "1320");
    assert_eq!(written, "theme=dark\nvolume=0.5\nwindow_width=1320\n");
    assert_eq!(settings::set("", "theme", "auto"), "theme=auto\n");
    // Replacing keeps one line per key.
    assert_eq!(settings::set(&written, "theme", "light"), "theme=light\nvolume=0.5\nwindow_width=1320\n");
}

#[test]
fn get_after_set_round_trip() {
    let mut content = String::from("garbage\n=x\n");
    content = settings::set(&content, THEME, "dark");
    content = set_i32(&content, WINDOW_WIDTH, -1320);
    content = set_i32(&content, WINDOW_HEIGHT, 860);
    content = set_bool(&content, WINDOW_MAXIMIZED, true);
    assert_eq!(get(&content, THEME).as_deref(), Some("dark"));
    assert_eq!(get_i32(&content, WINDOW_WIDTH, 0), -1320);
    assert_eq!(get_i32(&content, WINDOW_HEIGHT, 0), 860);
    assert!(get_bool(&content, WINDOW_MAXIMIZED, false));
    content = set_bool(&content, WINDOW_MAXIMIZED, false);
    assert!(!get_bool(&content, WINDOW_MAXIMIZED, true));
    // The entry with an empty key survives too.
    assert_eq!(get(&content, "").as_deref(), Some("x"));
}

#[test]
fn typed_reads_fall_back_to_default() {
    let content = "volume=abc\nwindow_width=99999999999\nwindow_maximized=TRUE\nwindow_height=+7\n";
    assert_eq!(get_i32(content, VOLUME, 5), 5);
    assert_eq!(get_i32(content, WINDOW_WIDTH, 1320), 1320);
    assert_eq!(get_i32(content, "absent", 42), 42);
    assert_eq!(get_i32(content, WINDOW_HEIGHT, 0), 7);
    // Only exactly "true" is true.
    assert!(!get_bool(content, WINDOW_MAXIMIZED, true));
    assert!(get_bool(content, "absent", true));
}

#[test]
fn parse_then_render_is_stable() {
    let entries = parse_entries("b=2\na=1\nb=3\n");
    assert_eq!(entries, vec![("a".to_string(), "1".to_string()), ("b".to_string(), "3".to_string())]);
    let text = render_entries(&entries);
    assert_eq!(text, "a=1\nb=3\n");
    assert_eq!(parse_entries(&text), entries);
}
