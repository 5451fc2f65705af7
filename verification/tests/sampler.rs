use focus_tracker::sample::{get_focused_window, get_last_input, make_sample, FocusedWindow};

fn window(name: &str, title: &str) -> FocusedWindow {
    FocusedWindow { name: name.to_string(), title: title.to_string() }
}

#[test]
fn focused_window_passes_named_window_through() {
    let r = get_focused_window(Some(window("editor", "notes.txt")));
    let w = r.expect("a named window is a valid observation");
    assert_eq!(w.name, "editor");
    assert_eq!(w.title, "notes.txt");
}

#[test]
fn focused_window_query_failure_is_none_not_error() {
    assert!(get_focused_window(None).is_none());
}

#[test]
fn focused_window_empty_name_is_none() {
    assert!(get_focused_window(Some(window("", "orphan title"))).is_none());
}

#[test]
fn last_input_passes_reading_through() {
    assert_eq!(get_last_input(Some(12345)), 12345);
}

#[test]
fn last_input_query_failure_defaults_to_zero() {
    assert_eq!(get_last_input(None), 0);
}

#[test]
fn sample_from_named_window() {
    let s = make_sample(Some(window("editor", "notes.txt")), Some(250), 9000);
    assert_eq!(s.app_id, "editor");
    assert_eq!(s.title, "notes.txt");
    assert_eq!(s.idle_ms, 250);
    assert_eq!(s.sampled_at, 9000);
}

#[test]
fn sample_without_window_uses_sentinel() {
    let s = make_sample(None, Some(250), 9000);
    assert_eq!(s.app_id, "none");
    assert_eq!(s.title, "");
}

#[test]
fn sample_with_empty_name_uses_sentinel() {
    let s = make_sample(Some(window("", "orphan title")), Some(250), 9000);
    assert_eq!(s.app_id, "none");
    assert_eq!(s.title, "");
}

#[test]
fn sample_without_idle_reading_counts_as_active() {
    let s = make_sample(Some(window("editor", "notes.txt")), None, 9000);
    assert_eq!(s.idle_ms, 0);
}
