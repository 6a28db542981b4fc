use chrono::Utc;
use moodle_tui::models::{
    QuizAnswerControl, QuizAnswerKind, QuizAnswerOption, QuizAttempt, QuizAttemptData, QuizQuestion,
    QuizSummary,
};
use moodle_tui::quiz_view::{
    deadline_computable, format_duration, quiz_deadline, status_text, time_remaining_at, time_remaining_text, visible_controls,
};
use moodle_tui::state::QuizModalData;

fn test_modal() -> QuizModalData {
    let now = Utc::now().timestamp();
    QuizModalData {
        course_id: 1,
        quiz_id: 2,
        cmid: 3,
        quiz_name: "Introduction to Web Development".into(),
        course_name: "Course".into(),
        module_description: None,
        module_url: None,
        summary: Some(QuizSummary {
            id: 2,
            course_id: 1,
            cmid: 3,
            name: "Introduction to Web Development".into(),
            intro: None,
            timeopen: None,
            timeclose: None,
            timelimit: Some(1500),
            attempts: None,
        }),
        attempt: Some(QuizAttemptData {
            attempt: QuizAttempt {
                id: 4,
                quiz: 2,
                state: "inprogress".into(),
                currentpage: Some(0),
                timestart: Some(now),
                timefinish: Some(now + 1500),
            },
            questions: vec![QuizQuestion {
                slot: 1,
                number: Some("1".into()),
                name: "Question".into(),
                text: "Which of the following technologies is primarily responsible for styling web pages?".into(),
                html: String::new(),
                controls: vec![QuizAnswerControl {
                    name: "q1:1_answer".into(),
                    kind: QuizAnswerKind::SingleChoice,
                    options: vec![
                        QuizAnswerOption { name: None, label: "HTML".into(), value: "0".into(), selected: false },
                        QuizAnswerOption { name: None, label: "CSS".into(), value: "1".into(), selected: true },
                        QuizAnswerOption { name: None, label: "JavaScript".into(), value: "2".into(), selected: false },
                    ],
                    value: String::new(),
                }],
                unsupported: false,
            }],
            warnings: Vec::new(),
        }),
        loading: false,
        saving: false,
        finishing: false,
        ai_filling: false,
        confirm_finish: false,
        error: None,
        selected_question: 0,
        selected_control: 0,
        selected_option: 0,
        editing_text: false,
    }
}

#[test]
fn formats_time_remaining_from_finish_time() {
    let mut modal = test_modal();
    let now = Utc::now().timestamp();
    modal.attempt.as_mut().unwrap().attempt.timefinish = Some(now + 65);
    assert!(matches!(time_remaining_text(&modal).as_str(), "00:01:04" | "00:01:05"));
}

#[test]
fn clamps_expired_time_remaining() {
    let mut modal = test_modal();
    modal.attempt.as_mut().unwrap().attempt.timefinish = Some(Utc::now().timestamp() - 1);
    assert_eq!(time_remaining_text(&modal), "00:00:00");
}

#[test]
fn reports_no_limit_without_timing_data() {
    let mut modal = test_modal();
    modal.summary.as_mut().unwrap().timelimit = None;
    modal.attempt.as_mut().unwrap().attempt.timefinish = None;
    modal.attempt.as_mut().unwrap().attempt.timestart = None;
    assert_eq!(time_remaining_text(&modal), "No limit");
}

#[test]
fn close_time_caps_timelimit_deadline() {
    let mut modal = test_modal();
    let now = Utc::now().timestamp();
    modal.attempt.as_mut().unwrap().attempt.timestart = Some(now);
    modal.attempt.as_mut().unwrap().attempt.timefinish = None;
    modal.summary.as_mut().unwrap().timelimit = Some(3600);
    modal.summary.as_mut().unwrap().timeclose = Some(now + 30);
    assert!(matches!(time_remaining_text(&modal).as_str(), "00:00:29" | "00:00:30"));
}

#[test]
fn durations_and_deadlines_on_fixed_clock() {
    assert_eq!(format_duration(-5), "00:00:00");
    assert_eq!(format_duration(3_725), "01:02:05");
    assert_eq!(format_duration(360_000), "100:00:00");
    let mut modal = test_modal();
    modal.attempt.as_mut().unwrap().attempt.timestart = Some(1_000);
    modal.attempt.as_mut().unwrap().attempt.timefinish = None;
    assert_eq!(quiz_deadline(&modal), Some(2_500));
    assert_eq!(time_remaining_at(&modal, 1_100), "00:23:20");
    modal.attempt = None;
    assert_eq!(quiz_deadline(&modal), None);
    assert_eq!(time_remaining_at(&modal, 0), "No limit");
}

#[test]
fn status_line_and_visible_controls() {
    let mut modal = test_modal();
    assert_eq!(status_text(&modal), "attempt #4 inprogress");
    modal.ai_filling = true;
    assert_eq!(status_text(&modal), "AI filling...");
    modal.saving = true;
    assert_eq!(status_text(&modal), "saving");
    let controls = vec![
        QuizAnswerControl { name: "h".into(), kind: QuizAnswerKind::Hidden, options: vec![], value: "1".into() },
        QuizAnswerControl { name: "t".into(), kind: QuizAnswerKind::Text, options: vec![], value: String::new() },
    ];
    let shown = visible_controls(&controls);
    assert_eq!(shown.len(), 1);
    assert_eq!(shown[0].name, "t");
}

#[test]
fn deadline_is_computable_unless_start_plus_limit_overflows() {
    let mut modal = test_modal();
    assert!(deadline_computable(&modal));
    if let Some(data) = modal.attempt.as_mut() {
        data.attempt.timefinish = None;
        data.attempt.timestart = Some(i64::MAX - 10);
    }
    assert!(!deadline_computable(&modal));
    modal.summary.as_mut().unwrap().timelimit = Some(0);
    assert!(deadline_computable(&modal));
}
