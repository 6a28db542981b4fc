use moodle_tui::quizzes::attempt_still_in_progress;
use moodle_tui::models::{
    QuizAnswerControl, QuizAnswerKind, QuizAnswerOption, QuizAttempt, QuizAttemptData, QuizQuestion,
};
use moodle_tui::quizzes::append_answer_data;

fn question(slot: i64, controls: Vec<QuizAnswerControl>) -> QuizQuestion {
    QuizQuestion {
        slot,
        number: None,
        name: "Q".into(),
        text: String::new(),
        html: String::new(),
        unsupported: false,
        controls,
    }
}

fn attempt(questions: Vec<QuizQuestion>) -> QuizAttemptData {
    QuizAttemptData {
        attempt: QuizAttempt {
            id: 1,
            quiz: 2,
            state: "inprogress".into(),
            currentpage: None,
            timestart: None,
            timefinish: None,
        },
        questions,
        warnings: Vec::new(),
    }
}

#[test]
fn appends_moodle_answer_payload_names() {
    let mut params = Vec::new();
    let attempt = attempt(vec![question(
        1,
        vec![QuizAnswerControl {
            name: "q1:1_answer".into(),
            kind: QuizAnswerKind::Text,
            options: Vec::new(),
            value: "answer".into(),
        }],
    )]);
    append_answer_data(&mut params, &attempt);
    assert_eq!(params[0], ("data[0][name]".into(), "q1:1_answer".into()));
    assert_eq!(params[1], ("data[0][value]".into(), "answer".into()));
}

#[test]
fn numbers_answers_across_questions_after_existing_params() {
    let mut params = vec![("attemptid".to_string(), "1".to_string())];
    let attempt = attempt(vec![
        question(
            1,
            vec![QuizAnswerControl {
                name: "q1:1_:sequencecheck".into(),
                kind: QuizAnswerKind::Hidden,
                options: Vec::new(),
                value: "2".into(),
            }],
        ),
        question(
            2,
            vec![QuizAnswerControl {
                name: "q1:2_answer".into(),
                kind: QuizAnswerKind::SingleChoice,
                options: vec![
                    QuizAnswerOption { name: None, label: "A".into(), value: "0".into(), selected: false },
                    QuizAnswerOption { name: None, label: "B".into(), value: "1".into(), selected: true },
                ],
                value: String::new(),
            }],
        ),
    ]);
    append_answer_data(&mut params, &attempt);
    assert_eq!(params.len(), 5);
    assert_eq!(params[3], ("data[1][name]".into(), "q1:2_answer".into()));
    assert_eq!(params[4], ("data[1][value]".into(), "1".into()));
}

#[test]
fn recognises_an_attempt_still_in_progress() {
    assert!(attempt_still_in_progress("Moodle error (attemptstillinprogress): an attempt is open"));
    assert!(attempt_still_in_progress("attemptstillinprogress"));
    assert!(!attempt_still_in_progress("attempt still in progress"));
    assert!(!attempt_still_in_progress(""));
}
