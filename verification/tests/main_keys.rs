use std::collections::HashMap;
use moodle_tui::main_keys::{handle_main_key, store_keyed, MainState};
use moodle_tui::models::{AssignmentDetail, Course, RuntimeConfig, UpcomingAssignment};
use moodle_tui::shortcuts::{KeyCode, KeyPress};
use moodle_tui::state::{AppCommand, CourseView, DashboardPane, LinkAction};

fn key(code: KeyCode) -> KeyPress {
    KeyPress::plain(code)
}

fn config() -> RuntimeConfig {
    RuntimeConfig {
        base_url: "https://m.example/".into(),
        username: " ann ".into(),
        service: "".into(),
        password: "pw".into(),
    }
}

fn course(id: i64, short: &str, url: Option<&str>) -> Course {
    Course {
        id,
        shortname: short.into(),
        fullname: format!("{short} full"),
        displayname: None,
        categoryid: None,
        categoryname: None,
        summary: None,
        visible: Some(1),
        progress_bits: None,
        courseurl: url.map(|u| u.to_string()),
    }
}

fn upcoming(id: i64, course_id: i64) -> UpcomingAssignment {
    UpcomingAssignment {
        id,
        name: format!("A{id}"),
        due_date: 100,
        course_id,
        course_short_name: Some("MAT".into()),
        course_full_name: None,
    }
}

fn detail(id: i64, cmid: i64) -> AssignmentDetail {
    AssignmentDetail {
        id,
        cmid,
        course_id: 1,
        name: "x".into(),
        intro: None,
        intro_format: None,
        always_show_description: None,
        allowsubmissionsfromdate: None,
        duedate: None,
        cutoffdate: None,
        gradingduedate: None,
        grade_bits: None,
        teamsubmission: None,
        requireallteammemberssubmit: None,
        maxattempts: None,
        sendnotifications: None,
    }
}

fn main_state() -> MainState {
    let mut main = MainState::new(Some(config()));
    main.dashboard.courses = vec![course(1, "MAT", None), course(2, "PHY", Some("https://c/2"))];
    main.dashboard.upcoming = vec![upcoming(11, 1), upcoming(12, 2)];
    main
}

#[test]
fn help_scroll_is_clamped_and_closes() {
    let mut main = main_state();
    main.settings_open = true;
    handle_main_key(&mut main, &None, 24, &vec![], key(KeyCode::End));
    // 24 rows: dialog 19, viewport 16, 40 lines of help
    assert_eq!(main.settings_scroll, 24);
    handle_main_key(&mut main, &None, 24, &vec![], key(KeyCode::PageDown));
    assert_eq!(main.settings_scroll, 24);
    handle_main_key(&mut main, &None, 24, &vec![], key(KeyCode::PageUp));
    assert_eq!(main.settings_scroll, 14);
    handle_main_key(&mut main, &None, 24, &vec![], key(KeyCode::Esc));
    assert!(!main.settings_open);
    assert_eq!(main.settings_scroll, 0);
}

#[test]
fn dashboard_navigation_and_opening_a_course() {
    let mut main = main_state();
    handle_main_key(&mut main, &None, 24, &vec![], key(KeyCode::Down));
    handle_main_key(&mut main, &None, 24, &vec![], key(KeyCode::Down));
    assert_eq!(main.selected_row, 1);
    handle_main_key(&mut main, &None, 24, &vec![], key(KeyCode::Tab));
    assert_eq!(main.dashboard_focus, DashboardPane::Courses);
    assert_eq!(main.selected_row, 0);
    let commands = handle_main_key(&mut main, &None, 24, &vec![], key(KeyCode::Enter));
    assert!(matches!(&commands[..], [AppCommand::LoadCoursePage(_, 1)]));
    match &main.view {
        CourseView::Course(page) => {
            assert_eq!(page.course_id, 1);
            assert!(page.loading);
        }
        CourseView::Dashboard => panic!("course page expected"),
    }
    handle_main_key(&mut main, &None, 24, &vec![], key(KeyCode::Esc));
    assert!(matches!(main.view, CourseView::Dashboard));
}

#[test]
fn links_of_courses_and_upcoming_assignments() {
    let mut main = main_state();
    main.dashboard_focus = DashboardPane::Courses;
    let commands = handle_main_key(&mut main, &None, 24, &vec![], key(KeyCode::Char('c')));
    assert!(matches!(&commands[..], [AppCommand::CopyToClipboard(u)] if u == "https://m.example/course/view.php?id=1"));
    main.selected_row = 1;
    let commands = handle_main_key(&mut main, &None, 24, &vec![], key(KeyCode::Char('C')));
    assert!(matches!(&commands[..], [AppCommand::OpenUrl(u)] if u == "https://c/2"));
    main.dashboard_focus = DashboardPane::Upcoming;
    main.selected_row = 0;
    let commands = handle_main_key(&mut main, &None, 24, &vec![], key(KeyCode::Char('c')));
    assert!(matches!(
        &commands[..],
        [AppCommand::ResolveUpcomingLink { upcoming_id: 11, course_id: 1, action: LinkAction::Copy, .. }]
    ));
    store_keyed(&mut main.assignment_list_by_course_id, 1, vec![detail(11, 501)]);
    let commands = handle_main_key(&mut main, &None, 24, &vec![], key(KeyCode::Char('c')));
    assert!(matches!(&commands[..], [AppCommand::CopyToClipboard(u)] if u == "https://m.example/mod/assign/view.php?id=501"));
}

#[test]
fn upcoming_assignment_dialog_and_logout() {
    let mut main = main_state();
    let commands = handle_main_key(&mut main, &None, 24, &vec![], key(KeyCode::Enter));
    let modal = main.assignment_modal.as_ref().expect("dialog");
    assert_eq!(modal.assignment_id, 11);
    assert_eq!(modal.course_name, "MAT");
    assert_eq!(commands.len(), 2);
    let commands = handle_main_key(&mut main, &None, 24, &vec![], key(KeyCode::Esc));
    assert!(commands.is_empty());
    assert!(main.assignment_modal.is_none());
    let commands = handle_main_key(&mut main, &Some("warn".into()), 24, &vec![], key(KeyCode::Char('l')));
    match &commands[..] {
        [AppCommand::Logout { saved_config: Some(saved), password: Some(p), storage_warning: Some(w) }] => {
            assert_eq!(saved.base_url, "https://m.example");
            assert_eq!(saved.username, "ann");
            assert_eq!(saved.service, "moodle_mobile_app");
            assert_eq!(p, "pw");
            assert_eq!(w, "warn");
        }
        _ => panic!("logout expected"),
    }
}

#[test]
fn course_finder_typing_and_submitting() {
    let mut main = main_state();
    handle_main_key(&mut main, &None, 24, &vec![], key(KeyCode::Char('/')));
    assert!(main.course_finder_open);
    handle_main_key(&mut main, &None, 24, &vec![0, 1], key(KeyCode::Char('p')));
    assert_eq!(main.finder_query.value, "p");
    handle_main_key(&mut main, &None, 24, &vec![1], key(KeyCode::Down));
    assert_eq!(main.finder_selected, 0);
    let commands = handle_main_key(&mut main, &None, 24, &vec![1], key(KeyCode::Enter));
    assert!(matches!(&commands[..], [AppCommand::LoadCoursePage(_, 2)]));
    assert!(!main.course_finder_open);
}

#[test]
fn stored_lists_read_back() {
    let mut lists: HashMap<i64, Vec<u8>> = HashMap::new();
    store_keyed(&mut lists, 3, vec![1]);
    store_keyed(&mut lists, 4, vec![2]);
    store_keyed(&mut lists, 3, vec![9]);
    assert_eq!(lists.len(), 2);
    assert_eq!(lists.get(&3), Some(&vec![9]));
    assert_eq!(lists.get(&4), Some(&vec![2]));
}

#[test]
fn help_scroll_far_down_still_scrolls_up() {
    let mut main = main_state();
    main.settings_open = true;
    main.settings_scroll = u16::MAX;
    // Up clamps to the largest scroll first, then steps back one line.
    handle_main_key(&mut main, &None, 24, &vec![], key(KeyCode::Up));
    assert_eq!(main.settings_scroll, 23);
    main.settings_scroll = u16::MAX - 10;
    handle_main_key(&mut main, &None, 24, &vec![], key(KeyCode::PageDown));
    assert_eq!(main.settings_scroll, 24);
}
