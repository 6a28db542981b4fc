use moodle_tui::models::{QuizAnswerControl, QuizAnswerKind, QuizAnswerOption};
use moodle_tui::quiz_html::{build_answer_params, parse_question_controls, question_text_from_html};

#[test]
fn parses_radio_and_hidden_controls() {
    let controls = parse_question_controls(
        r#"<input type="hidden" name="q1:1_:sequencecheck" value="1">
        <input type="radio" name="q1:1_answer" value="0" checked><label>True</label>
        <input type="radio" name="q1:1_answer" value="1"><label>False</label>"#,
    );
    assert!(controls.iter().any(|c| c.kind == QuizAnswerKind::Hidden));
    let radio = controls
        .iter()
        .find(|c| c.kind == QuizAnswerKind::SingleChoice)
        .unwrap();
    assert_eq!(radio.name, "q1:1_answer");
    assert_eq!(radio.options.len(), 2);
    assert!(radio.options[0].selected);
}

#[test]
fn skips_moodle_clear_choice_radio_control() {
    let controls = parse_question_controls(
        r#"<input type="radio" name="q1:1_answer" value="0"><label>Assignment</label>
        <input type="radio" name="q1:1_answer" value="-1" checked><label>Clear my choice</label>"#,
    );
    let radio = controls
        .iter()
        .find(|c| c.kind == QuizAnswerKind::SingleChoice)
        .unwrap();
    assert_eq!(radio.options.len(), 1);
    assert_eq!(radio.options[0].label, "Assignment");
}

#[test]
fn groups_moodle_multichoice_checkboxes_by_question() {
    let controls = parse_question_controls(
        r#"<input type="hidden" name="q7:4_choice0" value="0" />
        <input type="checkbox" name="q7:4_choice0" value="1" id="q7:4_choice0" aria-labelledby="q7:4_choice0_label" />
        <div id="q7:4_choice0_label"><span>a. </span><div>Assignment</div></div>
        <input type="hidden" name="q7:4_choice1" value="0" />
        <input type="checkbox" name="q7:4_choice1" value="1" id="q7:4_choice1" aria-labelledby="q7:4_choice1_label" checked />
        <div id="q7:4_choice1_label"><span>b. </span><div>Quiz</div></div>"#,
    );
    let checks: Vec<_> = controls
        .iter()
        .filter(|c| c.kind == QuizAnswerKind::MultiChoice)
        .collect();
    assert_eq!(checks.len(), 1);
    assert_eq!(checks[0].name, "q7:4");
    assert_eq!(checks[0].options.len(), 2);
    assert_eq!(checks[0].options[0].name.as_deref(), Some("q7:4_choice0"));
    assert_eq!(checks[0].options[0].label, "a. Assignment");
    assert!(checks[0].options[1].selected);
}

#[test]
fn builds_answer_params_without_unsupported_controls() {
    let controls = vec![
        QuizAnswerControl {
            name: "a".into(),
            kind: QuizAnswerKind::Text,
            options: Vec::new(),
            value: "42".into(),
        },
        QuizAnswerControl {
            name: "b".into(),
            kind: QuizAnswerKind::Unsupported,
            options: Vec::new(),
            value: "file".into(),
        },
    ];
    assert_eq!(
        build_answer_params(&controls),
        vec![("a".to_string(), "42".to_string())]
    );
}

#[test]
fn parses_textarea_controls() {
    let controls = parse_question_controls(
        r#"<div class="qtext">Explain.</div><textarea name="q4:1_answer">old</textarea>"#,
    );
    let text = controls
        .iter()
        .find(|control| control.kind == QuizAnswerKind::Text)
        .unwrap();
    assert_eq!(text.name, "q4:1_answer");
    assert_eq!(text.value, "old");
}

#[test]
fn extracts_question_text_before_answer_controls() {
    let text = question_text_from_html(
        r#"<div class="qtext"><p>What is 6 * 7?</p></div><div class="ablock"><input type="text" name="q1:1_answer"></div>"#,
    );
    assert_eq!(text, "What is 6 * 7?");
}

#[test]
fn prefers_moodle_qtext_over_question_state() {
    let text = question_text_from_html(
        r#"<div class="info">Question 1 Not yet answered</div><div class="content"><div class="qtext"><p>The Moodle TUI can save simple quiz answers.</p></div><div class="ablock"><div class="answer"><input type="radio"></div></div></div>"#,
    );
    assert_eq!(text, "The Moodle TUI can save simple quiz answers.");
}

#[test]
fn radio_groups_come_out_sorted_by_name() {
    let controls = parse_question_controls(
        r#"<input type="radio" name="zeta" value="1"><label>Z</label>
        <input type="radio" name="alpha" value="2"><label>A</label>
        <input type="submit" name="next" value="Next">
        <input name="q1:flagged" type="checkbox" value="1">
        <input type="file" name="upload">"#,
    );
    let names: Vec<&str> = controls.iter().map(|c| c.name.as_str()).collect();
    assert_eq!(names, vec!["upload", "alpha", "zeta"]);
    assert_eq!(controls[0].kind, QuizAnswerKind::Unsupported);
    assert_eq!(controls[0].value, "file");
}

#[test]
fn parses_select_options_with_fallback_labels() {
    let controls = parse_question_controls(
        r#"<select name="q2:1_answer"><option value="">Choose...</option><option value="7" selected> </option></select>"#,
    );
    assert_eq!(controls.len(), 1);
    assert_eq!(controls[0].kind, QuizAnswerKind::SingleChoice);
    assert_eq!(controls[0].options[0].label, "Choose...");
    assert_eq!(controls[0].options[1].label, "7");
    assert!(controls[0].options[1].selected);
}

#[test]
fn multi_choice_params_use_option_names() {
    let controls = vec![QuizAnswerControl {
        name: "q3".into(),
        kind: QuizAnswerKind::MultiChoice,
        options: vec![
            QuizAnswerOption { name: Some("q3_choice0".into()), label: "a".into(), value: "1".into(), selected: true },
            QuizAnswerOption { name: None, label: "b".into(), value: "1".into(), selected: true },
            QuizAnswerOption { name: Some("q3_choice2".into()), label: "c".into(), value: "1".into(), selected: false },
        ],
        value: String::new(),
    }];
    assert_eq!(
        build_answer_params(&controls),
        vec![("q3_choice0".to_string(), "1".to_string()), ("q3".to_string(), "1".to_string())]
    );
}
