use moodle_tui::demo::{demo_config, demo_course_sections, demo_upcoming, demo_upcoming_at};

#[test]
fn demo_config_points_at_demo_site() {
    let config = demo_config();
    assert_eq!(config.base_url, "https://demo.moodle.example");
    assert_eq!(config.username, "demo");
    assert_eq!(config.service, "moodle_mobile_app");
    assert_eq!(config.password, "demo");
}

#[test]
fn demo_sections_are_numbered_from_the_course_id() {
    let sections = demo_course_sections(7);
    assert_eq!(sections.len(), 2);
    assert_eq!(sections[0].id, 701);
    assert_eq!(sections[1].id, 702);
    assert_eq!(sections[0].modules[1].id, 7002);
    assert_eq!(
        sections[0].modules[1].url.as_deref(),
        Some("https://demo.moodle.example/mod/assign/view.php?id=7")
    );
    assert_eq!(sections[1].modules[0].modname.as_deref(), Some("forum"));
    assert_eq!(sections[0].modules[0].contents[0].filename.as_deref(), Some("syllabus.pdf"));
}

#[test]
fn demo_upcoming_is_due_after_now() {
    let list = demo_upcoming_at(1_000);
    let due: Vec<i64> = list.iter().map(|a| a.due_date).collect();
    assert_eq!(due, vec![1_000 + 172_800, 1_000 + 432_000, 1_000 + 777_600]);
    assert_eq!(list[2].course_short_name.as_deref(), Some("ENG110"));
    assert_eq!(demo_upcoming().len(), 3);
}
