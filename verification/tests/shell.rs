use moodle_tui::main_keys::MainState;
use moodle_tui::models::{Course, UpcomingAssignment};
use moodle_tui::scroll::bounded_horizontal_scroll;
use moodle_tui::shell::{
    active_tab_title, course_row_width, filter_upcoming_with, filtered_upcoming, filtered_upcoming_with, format_timestamp, max_horizontal_scroll,
    substring_match_indices, upcoming_max_scroll_with,
};
use moodle_tui::panes::dashboard_pane_width;
use moodle_tui::state::DashboardPane;
use unicode_width::UnicodeWidthStr;
use moodle_tui::state::{CoursePageData, CourseView};

#[test]
fn active_tab_title_uses_current_view() {
    let mut main = MainState::new(None);
    assert_eq!(active_tab_title(&main), "Dashboard");

    main.view = CourseView::Course(CoursePageData {
        course_short_name: "MATH".into(),
        course_full_name: "Mathematics".into(),
        ..Default::default()
    });
    assert_eq!(active_tab_title(&main), "MATH");

    main.settings_open = true;
    assert_eq!(active_tab_title(&main), "Settings");
}

#[test]
fn tab_title_falls_back_to_course_id() {
    let mut main = MainState::new(None);
    main.view = CourseView::Course(CoursePageData { course_id: 42, ..Default::default() });
    assert_eq!(active_tab_title(&main), "Course #42");
}

#[test]
fn highlights_first_match_by_character() {
    assert_eq!(substring_match_indices("Mathématiques", "mat"), vec![0, 1, 2]);
    assert_eq!(substring_match_indices("Éa Éb", "éb"), vec![3, 4]);
    assert!(substring_match_indices("abc", "").is_empty());
    assert!(substring_match_indices("abc", "x").is_empty());
}

fn assignment(name: &str, short: Option<&str>) -> UpcomingAssignment {
    UpcomingAssignment {
        id: 1,
        name: name.into(),
        due_date: 0,
        course_id: 1,
        course_short_name: short.map(|s| s.to_string()),
        course_full_name: None,
    }
}

#[test]
fn upcoming_filter_matches_names_courses_and_dates() {
    let list = vec![
        assignment("Algebra worksheet", Some("MATH")),
        assignment("Essay", Some("HIST")),
        assignment("Lab", None),
    ];
    let stamps = vec!["2027-01-01 10:00".to_string(), "2027-02-01 10:00".to_string(), "x".to_string()];
    assert_eq!(filter_upcoming_with(&list, " math ", &stamps), vec![0]);
    assert_eq!(filter_upcoming_with(&list, "02-01", &stamps), vec![1]);
    assert_eq!(filter_upcoming_with(&list, "", &stamps), vec![0, 1, 2]);
    let mut main = MainState::new(None);
    main.dashboard.upcoming = list;
    main.dashboard_search_query = "ESSAY".into();
    let shown = filtered_upcoming(&main);
    assert_eq!(shown.len(), 1);
    assert_eq!(shown[0].name, "Essay");
}

fn course(shortname: &str, fullname: &str) -> Course {
    Course {
        id: 1,
        shortname: shortname.into(),
        fullname: fullname.into(),
        displayname: None,
        categoryid: None,
        categoryname: None,
        summary: None,
        visible: None,
        progress_bits: None,
        courseurl: None,
    }
}

#[test]
fn long_dashboard_rows_have_bounded_horizontal_scroll() {
    let mut main = MainState::new(None);
    main.dashboard.courses =
        vec![course("MATH", "A very long course title that should continue past the visible pane")];
    main.dashboard.upcoming = vec![UpcomingAssignment {
        id: 10,
        name: "A very long upcoming assignment name that should continue past the pane".into(),
        due_date: 1_800_000_000,
        course_id: 1,
        course_short_name: Some("MATH".into()),
        course_full_name: Some("Mathematics".into()),
    }];
    let shown: Vec<&Course> = main.dashboard.courses.iter().collect();

    let course_max = max_horizontal_scroll(&main, DashboardPane::Courses, 32, &shown);
    let upcoming_max = max_horizontal_scroll(&main, DashboardPane::Upcoming, 32, &shown);

    assert!(course_max > 0);
    assert!(upcoming_max > 0);
    assert_eq!(bounded_horizontal_scroll(0, 200, course_max), course_max);
    assert_eq!(bounded_horizontal_scroll(course_max, -200, course_max), 0);
}

#[test]
fn long_course_shortnames_contribute_to_horizontal_scroll() {
    let mut main = MainState::new(None);
    main.dashboard.courses = vec![course("AM1CHIFScheineckerDellinger2223", "AM 1CHIF Scheinecker_Dellinger 2223")];
    let shown: Vec<&Course> = main.dashboard.courses.iter().collect();

    let rendered_width =
        UnicodeWidthStr::width("AM1CHIFScheineckerDellinger2223 AM 1CHIF Scheinecker_Dellinger 2223");

    assert_eq!(course_row_width(&main.dashboard.courses[0]), rendered_width);
    assert_eq!(max_horizontal_scroll(&main, DashboardPane::Courses, 32, &shown), (rendered_width - 32) as u16);
}

#[test]
fn short_course_names_are_padded_to_ten_columns() {
    assert_eq!(course_row_width(&course("MATH", "Mathematics")), 10 + 1 + 11);
    let none: Vec<&Course> = Vec::new();
    assert_eq!(max_horizontal_scroll(&MainState::new(None), DashboardPane::Courses, 0, &none), 0);
}

#[test]
fn upcoming_rows_are_measured_with_the_given_due_dates() {
    let mut main = MainState::new(None);
    main.dashboard.upcoming = vec![assignment("Essay", Some("MATH"))];
    let stamps = vec!["2027-01-15 08:00".to_string()];
    // "2027-01-15 08:00" + "  " + "MATH" padded to 14 + "  " + "Essay" is 39 columns.
    assert_eq!(upcoming_max_scroll_with(&main, &stamps, 30), 9);
    assert_eq!(upcoming_max_scroll_with(&main, &stamps, 39), 0);
    main.dashboard_search_query = "nothing matches".into();
    // The placeholder "No upcoming assignments" is 23 columns.
    assert_eq!(upcoming_max_scroll_with(&main, &stamps, 20), 3);
    main.dashboard.upcoming[0].course_short_name = None;
    main.dashboard_search_query = String::new();
    // Without any course name the column shows "?".
    assert_eq!(upcoming_max_scroll_with(&main, &stamps, 30), 9);
}

#[test]
fn due_dates_are_local_minutes() {
    let text = format_timestamp(1_800_000_000);
    let chars: Vec<char> = text.chars().collect();
    assert_eq!(chars.len(), 16);
    assert_eq!((chars[4], chars[7], chars[10], chars[13]), ('-', '-', ' ', ':'));
    assert!(text.starts_with("2027-01-1"));
    // Two days later the shown date moves on.
    assert_ne!(format_timestamp(1_800_000_000 + 2 * 86_400), text);
}

#[test]
fn dashboard_panes_split_fifty_five_forty_five() {
    assert_eq!(dashboard_pane_width(100, DashboardPane::Upcoming), 55);
    assert_eq!(dashboard_pane_width(100, DashboardPane::Courses), 45);
}

#[test]
fn the_filter_matches_the_given_due_date_texts() {
    let mut main = MainState::new(None);
    main.dashboard.upcoming = vec![assignment("Essay", Some("HIST")), assignment("Lab", Some("CHEM"))];
    let stamps = vec!["2027-01-15 08:00".to_string(), "2027-03-02 09:30".to_string()];
    main.dashboard_search_query = "03-02".into();
    let shown = filtered_upcoming_with(&main, &stamps);
    assert_eq!(shown.len(), 1);
    assert_eq!(shown[0].name, "Lab");
    main.dashboard_search_query = "zzz".into();
    assert!(filtered_upcoming_with(&main, &stamps).is_empty());
    assert!(filtered_upcoming(&main).is_empty());
}
