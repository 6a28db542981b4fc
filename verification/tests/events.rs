use moodle_tui::events::{main_event, CacheReload, WorkerEvent};
use moodle_tui::main_keys::MainState;
use moodle_tui::models::{Course, UpcomingAssignment};
use moodle_tui::plugins::PluginRegistry;
use moodle_tui::state::AppCommand;

fn course(id: i64) -> Course {
    Course {
        id,
        shortname: format!("C{id}"),
        fullname: format!("Course {id}"),
        displayname: None,
        categoryid: None,
        categoryname: None,
        summary: None,
        visible: None,
        progress_bits: None,
        courseurl: None,
    }
}

#[test]
fn every_event_moves_the_notice_by_one_step() {
    let mut main = MainState::new(None);
    let (commands, reload) = main_event(&mut main, WorkerEvent::Toast("hello".into()));
    assert_eq!(reload, CacheReload::Nothing);
    assert!(matches!(commands.as_slice(), [AppCommand::ScheduleToastExpire(1)]));
    assert_eq!(main.toast.toast.as_deref(), Some("hello"));

    let (commands, _) = main_event(&mut main, WorkerEvent::PluginRegistryChanged(Err("broken".into())));
    assert!(matches!(commands.as_slice(), [AppCommand::ScheduleToastExpire(2)]));
    assert_eq!(main.toast.toast.as_deref(), Some("Plugin error: broken"));

    // An expiry of an older notice keeps the newer one; other events leave it alone.
    let (commands, _) = main_event(&mut main, WorkerEvent::ToastExpire(1));
    assert!(commands.is_empty());
    assert_eq!(main.toast.toast_id, 2);
    assert_eq!(main.toast.toast.as_deref(), Some("Plugin error: broken"));
    let (commands, _) = main_event(&mut main, WorkerEvent::DashboardLoaded(Ok((vec![course(1)], Vec::new()))));
    assert!(commands.is_empty());
    assert_eq!(main.toast.toast_id, 2);
    let (_, _) = main_event(&mut main, WorkerEvent::ToastExpire(2));
    assert_eq!(main.toast.toast, None);
    assert_eq!(main.toast.toast_id, 2);
}

#[test]
fn events_reach_their_part_of_the_screen() {
    let mut main = MainState::new(None);
    main.dashboard.loading = true;
    let upcoming = UpcomingAssignment {
        id: 5,
        name: "Essay".into(),
        due_date: 0,
        course_id: 1,
        course_short_name: None,
        course_full_name: None,
    };
    main_event(&mut main, WorkerEvent::DashboardLoaded(Ok((vec![course(1), course(2)], vec![upcoming]))));
    assert!(!main.dashboard.loading);
    assert_eq!(main.dashboard.courses.len(), 2);
    assert_eq!(main.dashboard.upcoming.len(), 1);

    main_event(&mut main, WorkerEvent::DashboardLoaded(Err("offline".into())));
    assert_eq!(main.dashboard.error.as_deref(), Some("offline"));
    assert_eq!(main.dashboard.courses.len(), 2);

    main_event(&mut main, WorkerEvent::QuizListLoaded { course_id: 7, list: Vec::new() });
    assert_eq!(main.quiz_list_by_course_id.len(), 1);
    assert!(main.quiz_list_by_course_id.get(&7).is_some());
}

#[test]
fn plugin_events_ask_for_the_stored_data_they_change() {
    let mut main = MainState::new(None);
    let (_, reload) = main_event(
        &mut main,
        WorkerEvent::PluginSettingSaved {
            plugin_id: "p".into(),
            setting_name: "model".into(),
            secret: false,
            result: Ok(()),
        },
    );
    assert_eq!(reload, CacheReload::Settings);
    assert_eq!(main.toast.toast.as_deref(), Some("p setting saved."));
    let (_, reload) = main_event(&mut main, WorkerEvent::PluginRegistryChanged(Ok(PluginRegistry { plugins: Vec::new() })));
    assert_eq!(reload, CacheReload::SettingsAndSecrets);
    let (_, reload) = main_event(&mut main, WorkerEvent::PluginRegistryChanged(Err("x".into())));
    assert_eq!(reload, CacheReload::Nothing);
}

#[test]
fn sign_in_events_leave_the_signed_in_screen_alone() {
    let mut main = MainState::new(None);
    let (commands, reload) = main_event(&mut main, WorkerEvent::LoginValidated(Err("no".into())));
    assert!(commands.is_empty());
    assert_eq!(reload, CacheReload::Nothing);
    assert_eq!(main.toast.toast_id, 0);
}

#[test]
fn signing_in_shows_cached_lists_while_loading() {
    let mut main = MainState::new(None);
    main.begin_dashboard_load(Some((vec![course(3)], Vec::new())));
    assert!(main.dashboard.loading && main.dashboard.from_cache);
    assert_eq!(main.dashboard.courses.len(), 1);
    let mut fresh = MainState::new(None);
    fresh.begin_dashboard_load(None);
    assert!(fresh.dashboard.loading && !fresh.dashboard.from_cache);
    assert!(fresh.dashboard.courses.is_empty());
}
