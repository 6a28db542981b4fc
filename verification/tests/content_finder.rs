use moodle_tui::content_finder::cycle;

#[test]
fn cycling_wraps_both_ways() {
    assert_eq!(cycle(0, -1, 5), 4);
    assert_eq!(cycle(4, 1, 5), 0);
    assert_eq!(cycle(2, -7, 5), 0);
    assert_eq!(cycle(3, 0, 5), 3);
    assert_eq!(cycle(7, 1, 0), 0);
}

#[test]
fn cycling_reads_the_cursor_as_a_signed_position() {
    // usize::MAX read as isize is -1, so one step forward lands on 0.
    assert_eq!(cycle(usize::MAX, 1, 5), 0);
    assert_eq!(cycle(usize::MAX, 0, 5), 4);
}
