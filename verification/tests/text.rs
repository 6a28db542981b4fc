use moodle_tui::clock::{seconds_from_reading, unix_now};
use moodle_tui::text::trim_str;
use moodle_tui::text_input::TextInputState;

#[test]
fn trims_every_kind_of_unicode_white_space() {
    assert_eq!(trim_str("\u{3000} a b\u{85}\t\n"), "a b");
    assert_eq!(trim_str("\u{a0}\u{2009}x\u{202f}"), "x");
    // A zero-width space is not white space.
    assert_eq!(trim_str("\u{200b}x"), "\u{200b}x");
    assert_eq!(trim_str("   "), "");
}

#[test]
fn backspace_undoes_a_typed_character() {
    let mut field = TextInputState::new();
    field.set("abd");
    field.cursor = 2;
    let before = field.clone();
    field.insert('c');
    assert_eq!(field.value, "abcd");
    assert_eq!(field.cursor, 3);
    field.backspace();
    assert_eq!(field.value, before.value);
    assert_eq!(field.cursor, before.cursor);
    assert_eq!(field.mask, before.mask);
    let mut start = TextInputState::new();
    start.set("xy");
    start.cursor = 0;
    start.backspace();
    assert_eq!(start.value, "xy");
    assert_eq!(start.cursor, 0);
}

#[test]
fn moving_right_stops_after_the_last_character() {
    let mut field = TextInputState::new();
    field.set("ab");
    field.move_right();
    assert_eq!(field.cursor, 2);
    field.move_left();
    field.move_right();
    assert_eq!(field.cursor, 2);
}

#[test]
fn clock_readings_become_unix_seconds() {
    assert_eq!(seconds_from_reading(Some(1_800_000_000)), 1_800_000_000);
    assert_eq!(seconds_from_reading(None), 0);
    assert!(unix_now() > 1_600_000_000);
}
