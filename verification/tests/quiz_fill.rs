use moodle_tui::models::{
    QuizAnswerControl, QuizAnswerKind, QuizAnswerOption, QuizAttempt, QuizAttemptData, QuizQuestion,
};
use moodle_tui::plugins::{AiFillResponse, ControlAnswer, StudyHelpConfidence};
use moodle_tui::quiz_fill::apply_ai_fill;
use moodle_tui::state::QuizModalData;

fn modal_with(controls: Vec<QuizAnswerControl>) -> QuizModalData {
    QuizModalData {
        course_id: 1,
        quiz_id: 1,
        cmid: 1,
        quiz_name: "Quiz".into(),
        course_name: "Course".into(),
        module_description: None,
        module_url: None,
        summary: None,
        attempt: Some(QuizAttemptData {
            attempt: QuizAttempt {
                id: 1,
                quiz: 1,
                state: "inprogress".into(),
                currentpage: None,
                timestart: None,
                timefinish: None,
            },
            questions: vec![QuizQuestion {
                slot: 1,
                number: Some("3".into()),
                name: "Q".into(),
                text: "Compiled languages?".into(),
                html: String::new(),
                unsupported: false,
                controls,
            }],
            warnings: Vec::new(),
        }),
        loading: false,
        saving: false,
        finishing: false,
        ai_filling: false,
        confirm_finish: false,
        error: None,
        selected_question: 0,
        selected_control: 0,
        selected_option: 0,
        editing_text: false,
    }
}

fn response(answers: Vec<ControlAnswer>) -> AiFillResponse {
    AiFillResponse {
        answers,
        explanation: String::new(),
        confidence: StudyHelpConfidence::High,
    }
}

#[test]
fn applies_multi_choice_by_checkbox_input_name() {
    let mut modal = modal_with(vec![QuizAnswerControl {
        name: "q10:3".into(),
        kind: QuizAnswerKind::MultiChoice,
        value: String::new(),
        options: (0..5)
            .map(|idx| QuizAnswerOption {
                name: Some(format!("q10:3_choice{idx}")),
                label: idx.to_string(),
                value: "1".into(),
                selected: false,
            })
            .collect(),
    }]);
    let response = response(vec![ControlAnswer {
        control_name: "q10:3".into(),
        selected_values: vec![
            "q10:3_choice0".into(),
            "q10:3_choice3".into(),
            "q10:3_choice4".into(),
        ],
        text_value: None,
    }]);

    assert_eq!(apply_ai_fill(&mut modal, &response), 1);
    let options = &modal.attempt.as_ref().unwrap().questions[0].controls[0].options;
    assert_eq!(
        options
            .iter()
            .enumerate()
            .filter_map(|(idx, option)| option.selected.then_some(idx))
            .collect::<Vec<_>>(),
        vec![0, 3, 4]
    );
}

#[test]
fn fills_single_choice_and_trimmed_text() {
    let mut modal = modal_with(vec![
        QuizAnswerControl {
            name: "q1:1_answer".into(),
            kind: QuizAnswerKind::SingleChoice,
            value: String::new(),
            options: vec![
                QuizAnswerOption { name: None, label: "A".into(), value: "0".into(), selected: true },
                QuizAnswerOption { name: None, label: "B".into(), value: "1".into(), selected: false },
            ],
        },
        QuizAnswerControl {
            name: "q1:2_answer".into(),
            kind: QuizAnswerKind::Text,
            value: "old".into(),
            options: Vec::new(),
        },
    ]);
    let response = response(vec![
        ControlAnswer {
            control_name: "q1:1_answer".into(),
            selected_values: vec!["1".into()],
            text_value: None,
        },
        ControlAnswer {
            control_name: "q1:2_answer".into(),
            selected_values: Vec::new(),
            text_value: Some("  new text \n".into()),
        },
        ControlAnswer {
            control_name: "missing".into(),
            selected_values: vec!["1".into()],
            text_value: None,
        },
    ]);
    assert_eq!(apply_ai_fill(&mut modal, &response), 2);
    let controls = &modal.attempt.as_ref().unwrap().questions[0].controls;
    assert!(!controls[0].options[0].selected);
    assert!(controls[0].options[1].selected);
    assert_eq!(controls[1].value, "new text");
}

#[test]
fn blank_text_and_missing_question_fill_nothing() {
    let mut modal = modal_with(vec![QuizAnswerControl {
        name: "t".into(),
        kind: QuizAnswerKind::Text,
        value: "keep".into(),
        options: Vec::new(),
    }]);
    let blank = response(vec![ControlAnswer {
        control_name: "t".into(),
        selected_values: Vec::new(),
        text_value: Some("   ".into()),
    }]);
    assert_eq!(apply_ai_fill(&mut modal, &blank), 0);
    assert_eq!(modal.attempt.as_ref().unwrap().questions[0].controls[0].value, "keep");
    modal.selected_question = 5;
    let text = response(vec![ControlAnswer {
        control_name: "t".into(),
        selected_values: Vec::new(),
        text_value: Some("x".into()),
    }]);
    assert_eq!(apply_ai_fill(&mut modal, &text), 0);
}
