use moodle_tui::scroll::{
    bounded_horizontal_scroll, horizontal_continuation, horizontal_max_for_width,
    scrolled_visible_width,
};

#[test]
fn dashboard_horizontal_continuation_indicates_hidden_sides() {
    assert_eq!(horizontal_continuation(0, 0), (false, false));
    assert_eq!(horizontal_continuation(0, 12), (false, true));
    assert_eq!(horizontal_continuation(4, 12), (true, true));
    assert_eq!(horizontal_continuation(12, 12), (true, false));
}

#[test]
fn dashboard_scrolled_visible_width_includes_horizontal_offset() {
    assert_eq!(scrolled_visible_width(40, 0), 40);
    assert_eq!(scrolled_visible_width(40, 12), 52);
}

#[test]
fn horizontal_continuation_indicates_hidden_sides() {
    assert_eq!(horizontal_continuation(0, 0), (false, false));
    assert_eq!(horizontal_continuation(0, 12), (false, true));
    assert_eq!(horizontal_continuation(4, 12), (true, true));
    assert_eq!(horizontal_continuation(12, 12), (true, false));
}

#[test]
fn settings_scrolled_visible_width_includes_horizontal_offset() {
    assert_eq!(scrolled_visible_width(40, 0), 40);
    assert_eq!(scrolled_visible_width(40, 12), 52);
}

#[test]
fn scroll_is_bounded_on_both_sides() {
    assert_eq!(bounded_horizontal_scroll(5, -10, 20), 0);
    assert_eq!(bounded_horizontal_scroll(5, 100, 20), 20);
    assert_eq!(bounded_horizontal_scroll(5, 3, 20), 8);
    assert_eq!(bounded_horizontal_scroll(8, -3, 20), 5);
    assert_eq!(bounded_horizontal_scroll(65535, 1, 65535), 65535);
    assert_eq!(bounded_horizontal_scroll(30, -1, 20), 29);
}

#[test]
fn horizontal_max_saturates() {
    assert_eq!(horizontal_max_for_width(10, 32), 0);
    assert_eq!(horizontal_max_for_width(200, 32), 168);
    assert_eq!(horizontal_max_for_width(100_000, 0), 65535);
}
