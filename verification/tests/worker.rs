use moodle_tui::models::{QuizAttempt, QuizAttemptData};
use moodle_tui::state::{AppCommand, QuizModalData};
use moodle_tui::worker::{
    on_dashboard_loaded, on_quiz_attempt_finished, on_quiz_attempt_saved, DashboardData, ToastState,
};

fn modal() -> QuizModalData {
    QuizModalData {
        course_id: 1,
        quiz_id: 2,
        cmid: 3,
        quiz_name: "Quiz".into(),
        course_name: "Course".into(),
        module_description: None,
        module_url: None,
        summary: None,
        attempt: None,
        loading: false,
        saving: true,
        finishing: true,
        ai_filling: false,
        confirm_finish: true,
        error: None,
        selected_question: 0,
        selected_control: 0,
        selected_option: 0,
        editing_text: false,
    }
}

fn attempt(id: i64) -> QuizAttemptData {
    QuizAttemptData {
        attempt: QuizAttempt {
            id,
            quiz: 2,
            state: "inprogress".into(),
            currentpage: None,
            timestart: None,
            timefinish: None,
        },
        questions: Vec::new(),
        warnings: Vec::new(),
    }
}

#[test]
fn toast_expiry_only_clears_latest() {
    let mut toast = ToastState::new();
    let first = toast.show("one".into());
    let second = toast.show("two".into());
    assert!(matches!(first, AppCommand::ScheduleToastExpire(1)));
    assert!(matches!(second, AppCommand::ScheduleToastExpire(2)));
    toast.expire(1);
    assert_eq!(toast.toast.as_deref(), Some("two"));
    toast.expire(2);
    assert_eq!(toast.toast, None);
    let mut wrapping = ToastState { toast: None, toast_id: u64::MAX };
    assert!(matches!(wrapping.show("x".into()), AppCommand::ScheduleToastExpire(0)));
}

#[test]
fn saved_attempt_replaces_and_confirms() {
    let mut m = Some(modal());
    let mut toast = ToastState::new();
    let commands = on_quiz_attempt_saved(&mut m, &mut toast, 9, Ok(attempt(9)));
    assert_eq!(commands.len(), 1);
    let m = m.unwrap();
    assert!(!m.saving);
    assert_eq!(m.attempt.unwrap().attempt.id, 9);
    assert_eq!(toast.toast.as_deref(), Some("Quiz answers saved."));
}

#[test]
fn finished_attempt_closes_dialog_and_failure_keeps_it() {
    let mut toast = ToastState::new();
    let mut m = Some(modal());
    let commands = on_quiz_attempt_finished(&mut m, &mut toast, Err("nope".into()));
    assert!(commands.is_empty());
    let open = m.as_ref().unwrap();
    assert!(!open.finishing && !open.confirm_finish);
    assert_eq!(open.error.as_deref(), Some("nope"));
    let commands = on_quiz_attempt_finished(&mut m, &mut toast, Ok(()));
    assert_eq!(commands.len(), 1);
    assert!(m.is_none());
    assert_eq!(toast.toast.as_deref(), Some("Quiz attempt finished."));
}

#[test]
fn dashboard_keeps_lists_on_error() {
    let mut dashboard: DashboardData<u8> = DashboardData {
        courses: vec![1],
        upcoming: Vec::new(),
        loading: true,
        error: None,
        from_cache: true,
    };
    on_dashboard_loaded(&mut dashboard, Err("offline".into()));
    assert_eq!(dashboard.courses, vec![1]);
    assert_eq!(dashboard.error.as_deref(), Some("offline"));
    assert!(!dashboard.loading && dashboard.from_cache);
    on_dashboard_loaded(&mut dashboard, Ok((vec![2, 3], Vec::new())));
    assert_eq!(dashboard.courses, vec![2, 3]);
    assert!(dashboard.error.is_none() && !dashboard.from_cache);
}

#[test]
fn a_run_of_notices_advances_the_id_once_per_notice() {
    let mut toast = ToastState::new();
    let first = toast.show("one".into());
    let second = toast.show("two".into());
    assert!(matches!(first, AppCommand::ScheduleToastExpire(1)));
    assert!(matches!(second, AppCommand::ScheduleToastExpire(2)));
    // The expiry of the first notice leaves the second on screen.
    toast.expire(1);
    assert_eq!(toast.toast.as_deref(), Some("two"));
    assert_eq!(toast.toast_id, 2);
    // Its own expiry clears it, under the same id.
    toast.expire(2);
    assert_eq!(toast.toast, None);
    assert_eq!(toast.toast_id, 2);
}
