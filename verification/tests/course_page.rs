use moodle_tui::course_page::handle_course_view_key;
use moodle_tui::models::{CourseModule, CourseSection, RuntimeConfig};
use moodle_tui::shortcuts::{KeyCode, KeyPress};
use moodle_tui::state::{AppCommand, CoursePageData};

fn key(code: KeyCode) -> KeyPress {
    KeyPress::plain(code)
}

fn page() -> CoursePageData {
    CoursePageData {
        course_id: 5,
        course_short_name: "MAT".into(),
        course_full_name: String::new(),
        sections: vec![CourseSection {
            id: 1,
            name: Some("Week 1".into()),
            section: Some(1),
            summary: None,
            visible: Some(1),
            modules: vec![CourseModule {
                id: 10,
                instance: Some(77),
                name: "Essay".into(),
                modname: Some("assign".into()),
                description: Some("Write it".into()),
                url: Some("https://x/mod/assign/view.php?id=10".into()),
                visible: Some(1),
                contents: vec![],
            }],
        }],
        loading: false,
        error: None,
        from_cache: false,
        collapsed: Vec::new(),
        selected_row: 0,
    }
}

fn config() -> Option<RuntimeConfig> {
    Some(RuntimeConfig {
        base_url: "https://x".into(),
        username: "u".into(),
        service: "s".into(),
        password: "p".into(),
    })
}

#[test]
fn navigation_moves_and_clamps_selection() {
    let mut course = page();
    let mut modal = None;
    // rows: section, module, module description, module url
    assert_eq!(handle_course_view_key(&mut course, &mut modal, &None, key(KeyCode::End)).map(|c| c.len()), Some(0));
    assert_eq!(course.selected_row, 3);
    handle_course_view_key(&mut course, &mut modal, &None, key(KeyCode::Down));
    assert_eq!(course.selected_row, 3);
    handle_course_view_key(&mut course, &mut modal, &None, key(KeyCode::PageUp));
    assert_eq!(course.selected_row, 0);
    handle_course_view_key(&mut course, &mut modal, &None, key(KeyCode::PageDown));
    assert_eq!(course.selected_row, 3);
    handle_course_view_key(&mut course, &mut modal, &None, key(KeyCode::Up));
    assert_eq!(course.selected_row, 2);
    assert!(handle_course_view_key(&mut course, &mut modal, &None, key(KeyCode::Char('x'))).is_none());
}

#[test]
fn collapse_and_expand_a_section() {
    let mut course = page();
    let mut modal = None;
    handle_course_view_key(&mut course, &mut modal, &None, key(KeyCode::Left));
    assert_eq!(course.collapsed, vec!["section:1".to_string()]);
    handle_course_view_key(&mut course, &mut modal, &None, key(KeyCode::Right));
    assert!(course.collapsed.is_empty());
}

#[test]
fn collapse_on_a_leaf_moves_to_its_parent() {
    let mut course = page();
    course.selected_row = 3;
    let mut modal = None;
    handle_course_view_key(&mut course, &mut modal, &None, key(KeyCode::Left));
    assert_eq!(course.selected_row, 1);
    assert!(course.collapsed.is_empty());
}

#[test]
fn links_and_assignment_dialog() {
    let mut course = page();
    let mut modal = None;
    let commands =
        handle_course_view_key(&mut course, &mut modal, &None, key(KeyCode::Char('c'))).unwrap();
    assert!(matches!(&commands[..], [AppCommand::ShowToast(t)] if t == "No link available on this item."));
    course.selected_row = 1;
    let commands =
        handle_course_view_key(&mut course, &mut modal, &None, key(KeyCode::Char('C'))).unwrap();
    assert!(matches!(&commands[..], [AppCommand::OpenUrl(u)] if u == "https://x/mod/assign/view.php?id=10"));
    let commands =
        handle_course_view_key(&mut course, &mut modal, &config(), key(KeyCode::Enter)).unwrap();
    let m = modal.expect("dialog opened");
    assert_eq!(m.assignment_id, 77);
    assert_eq!(m.course_name, "MAT");
    assert_eq!(m.module_description.as_deref(), Some("Write it"));
    assert!(m.loading);
    assert!(matches!(&commands[..], [AppCommand::LoadAssignmentDetail(_, 5, 77), AppCommand::LoadAssignmentStatus(_, 77)]));
}
