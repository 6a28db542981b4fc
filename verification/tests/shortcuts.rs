use moodle_tui::shortcuts::{
    get_shortcut_sections, is_shortcut_pressed, settings_total_lines, KeyCode, KeyPress, TabId,
};

fn key(code: KeyCode) -> KeyPress {
    KeyPress::plain(code)
}

#[test]
fn plain_characters_trigger_global_shortcuts() {
    assert!(is_shortcut_pressed("quit", key(KeyCode::Char('q'))));
    assert!(!is_shortcut_pressed(
        "quit",
        KeyPress { code: KeyCode::Char('q'), ctrl: true, alt: false, shift: false }
    ));
    assert!(is_shortcut_pressed("settings-close", key(KeyCode::Esc)));
    assert!(is_shortcut_pressed("settings-close", key(KeyCode::Char('?'))));
    assert!(!is_shortcut_pressed("unknown", key(KeyCode::Esc)));
}

#[test]
fn open_link_accepts_capital_or_shifted_c() {
    assert!(is_shortcut_pressed("dashboard-open-link", key(KeyCode::Char('C'))));
    assert!(is_shortcut_pressed(
        "dashboard-open-link",
        KeyPress { code: KeyCode::Char('c'), ctrl: false, alt: false, shift: true }
    ));
    assert!(!is_shortcut_pressed("dashboard-open-link", key(KeyCode::Char('c'))));
    assert!(is_shortcut_pressed("dashboard-copy-link", key(KeyCode::Char('c'))));
}

#[test]
fn help_lists_every_section() {
    let sections = get_shortcut_sections(TabId::Dashboard);
    let titles: Vec<&str> = sections.iter().map(|s| s.title).collect();
    assert_eq!(
        titles,
        vec![
            "Global",
            "Settings Modal",
            "Dashboard / Course Page",
            "Course Finder",
            "Course Content Finder",
            "Assignment Modal"
        ]
    );
    assert_eq!(sections[0].items[0].keys, "?");
    assert_eq!(sections[0].items[0].action, "Open settings/help");
    assert_eq!(sections[5].items[1].keys, "Shift+C");
    assert_eq!(settings_total_lines(), 40);
}
