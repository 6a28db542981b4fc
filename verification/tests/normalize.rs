use moodle_tui::json::{JsonNumber, JsonText, JsonValue};
use moodle_tui::normalize::{
    extract_moodle_exception, next_page, normalize_course, normalize_course_assignments, normalize_course_quizzes,
    normalize_courses, normalize_quiz_attempt, normalize_quiz_attempt_data, normalize_section, normalize_sections,
    normalize_submission_status, normalize_token_response, normalize_upcoming_assignments, pick_unfinished_attempt,
    site_user_id, token_from_response,
};

fn num(n: i64) -> JsonValue {
    JsonValue::Number(JsonNumber { int: Some(n), truncated: Some(n), bits: Some((n as f64).to_bits()) })
}

fn float(f: f64) -> JsonValue {
    JsonValue::Number(JsonNumber { int: None, truncated: Some(f as i64), bits: Some(f.to_bits()) })
}

fn text(s: &str) -> JsonValue {
    let parsed = s.trim().parse::<f64>().ok().filter(|f| f.is_finite());
    JsonValue::String(JsonText {
        text: s.to_string(),
        float_truncated: parsed.map(|f| f as i64),
        float_bits: parsed.map(|f| f.to_bits()),
    })
}

fn obj(members: Vec<(&str, JsonValue)>) -> JsonValue {
    JsonValue::Object(members.into_iter().map(|(k, v)| (k.to_string(), v)).collect())
}

#[test]
fn course_normalises_basic_fields() {
    let course = normalize_course(&obj(vec![
        ("id", num(1)),
        ("shortname", text("MAT &amp; PHY")),
        ("fullname", text("Maths")),
        ("visible", num(1)),
        ("progress", JsonValue::Null),
    ]))
    .unwrap();
    assert_eq!(course.shortname, "MAT & PHY");
    assert_eq!(course.fullname, "Maths");
    assert_eq!(course.visible, Some(1));
    assert_eq!(course.progress_bits, None);
}

#[test]
fn upcoming_filters_past_and_sorts() {
    let payload = obj(vec![(
        "courses",
        JsonValue::Array(vec![obj(vec![
            ("id", num(1)),
            ("shortname", text("C1")),
            ("fullname", text("Course 1")),
            (
                "assignments",
                JsonValue::Array(vec![
                    obj(vec![("id", num(1)), ("name", text("B")), ("duedate", num(100))]),
                    obj(vec![("id", num(2)), ("name", text("A")), ("duedate", num(100))]),
                    obj(vec![("id", num(3)), ("name", text("Past")), ("duedate", num(5))]),
                ]),
            ),
        ])]),
    )]);
    let result = normalize_upcoming_assignments(&payload, 50);
    assert_eq!(result.len(), 2);
    assert_eq!(result[0].name, "A");
    assert_eq!(result[1].name, "B");
}

#[test]
fn upcoming_orders_by_due_date_then_course_then_id() {
    let payload = obj(vec![(
        "courses",
        JsonValue::Array(vec![
            obj(vec![
                ("id", num(2)),
                ("shortname", text("zz")),
                (
                    "assignments",
                    JsonValue::Array(vec![
                        obj(vec![("id", num(7)), ("name", text("Essay")), ("duedate", num(300))]),
                        obj(vec![("id", num(5)), ("name", text("essay")), ("duedate", num(300))]),
                        obj(vec![("id", num(8)), ("name", text("")), ("duedate", num(400))]),
                        obj(vec![("id", num(9)), ("name", text("Undated")), ("duedate", num(0))]),
                    ]),
                ),
            ]),
            obj(vec![
                ("id", num(1)),
                ("fullname", text("Algebra")),
                ("shortname", text("ALG")),
                (
                    "assignments",
                    JsonValue::Array(vec![
                        obj(vec![("id", num(4)), ("name", text("Sheet")), ("duedate", text("300"))]),
                        obj(vec![("id", num(3)), ("name", text("Early")), ("duedate", num(200))]),
                    ]),
                ),
            ]),
            obj(vec![("shortname", text("no id")), ("assignments", JsonValue::Array(vec![]))]),
        ]),
    )]);
    let result = normalize_upcoming_assignments(&payload, 200);
    let ids: Vec<i64> = result.iter().map(|u| u.id).collect();
    assert_eq!(ids, vec![3, 4, 5, 7]);
    assert_eq!(result[0].course_full_name.as_deref(), Some("Algebra"));
    assert_eq!(result[2].course_short_name.as_deref(), Some("zz"));
    assert_eq!(result[2].course_full_name, None);
    assert_eq!(result[1].due_date, 300);
}

#[test]
fn upcoming_of_non_object_is_empty() {
    assert!(normalize_upcoming_assignments(&JsonValue::Array(vec![]), 0).is_empty());
    assert!(normalize_upcoming_assignments(&obj(vec![("courses", num(1))]), 0).is_empty());
}

#[test]
fn course_reads_loose_numbers_and_link_fallback() {
    let course = normalize_course(&obj(vec![
        ("id", text(" 12 ")),
        ("shortname", text("S")),
        ("fullname", text("F &lt;1&gt;")),
        ("visible", JsonValue::Bool(false)),
        ("progress", float(42.5)),
        ("categoryid", float(3.9)),
        ("viewurl", text("https://m/course/view.php?id=12")),
    ]))
    .unwrap();
    assert_eq!(course.id, 12);
    assert_eq!(course.fullname, "F <1>");
    assert_eq!(course.visible, Some(0));
    assert_eq!(course.progress_bits, Some(42.5f64.to_bits()));
    assert_eq!(course.categoryid, Some(3));
    assert_eq!(course.courseurl.as_deref(), Some("https://m/course/view.php?id=12"));
    assert_eq!(course.displayname, None);
}

#[test]
fn course_needs_id_and_names() {
    assert!(normalize_course(&obj(vec![("shortname", text("S")), ("fullname", text("F"))])).is_none());
    assert!(normalize_course(&obj(vec![("id", num(1)), ("fullname", text("F"))])).is_none());
    assert!(normalize_course(&obj(vec![("id", text("x")), ("shortname", text("S")), ("fullname", text("F"))])).is_none());
    assert!(normalize_course(&num(3)).is_none());
}

#[test]
fn section_keeps_modules_with_id_and_name() {
    let section = normalize_section(&obj(vec![
        ("id", num(10)),
        ("name", text("Week 1")),
        ("section", num(1)),
        ("visible", JsonValue::Bool(true)),
        (
            "modules",
            JsonValue::Array(vec![
                obj(vec![
                    ("id", num(100)),
                    ("name", text("Slides")),
                    ("modname", text("resource")),
                    (
                        "contents",
                        JsonValue::Array(vec![
                            obj(vec![("type", text("file")), ("filename", text("a.pdf")), ("filesize", num(2048))]),
                            text("not an object"),
                        ]),
                    ),
                ]),
                obj(vec![("id", num(101))]),
                obj(vec![("name", text("No id"))]),
                obj(vec![("id", num(102)), ("name", text("Forum")), ("instance", num(7))]),
            ]),
        ),
    ]))
    .unwrap();
    assert_eq!(section.id, 10);
    assert_eq!(section.name.as_deref(), Some("Week 1"));
    assert_eq!(section.section, Some(1));
    assert_eq!(section.visible, Some(1));
    assert_eq!(section.modules.len(), 2);
    assert_eq!(section.modules[0].contents.len(), 1);
    assert_eq!(section.modules[0].contents[0].filename.as_deref(), Some("a.pdf"));
    assert_eq!(section.modules[0].contents[0].filesize, Some(2048));
    assert_eq!(section.modules[1].id, 102);
    assert_eq!(section.modules[1].instance, Some(7));
    assert!(section.modules[1].contents.is_empty());
    assert!(normalize_section(&obj(vec![("name", text("x"))])).is_none());
}

#[test]
fn course_assignments_filter_by_course_and_fall_back_to_course_id() {
    let payload = obj(vec![(
        "courses",
        JsonValue::Array(vec![
            obj(vec![
                ("id", num(1)),
                (
                    "assignments",
                    JsonValue::Array(vec![
                        obj(vec![
                            ("id", num(11)),
                            ("cmid", num(111)),
                            ("name", text("Essay")),
                            ("teamsubmission", text("yes")),
                            ("grade", float(10.0)),
                        ]),
                        obj(vec![("id", num(12)), ("name", text("No cmid"))]),
                    ]),
                ),
            ]),
            obj(vec![
                ("id", num(2)),
                (
                    "assignments",
                    JsonValue::Array(vec![obj(vec![
                        ("id", num(21)),
                        ("cmid", num(211)),
                        ("course", num(9)),
                        ("name", text("Lab")),
                        ("sendnotifications", num(0)),
                    ])]),
                ),
            ]),
        ]),
    )]);
    let all = normalize_course_assignments(&payload, None);
    assert_eq!(all.len(), 2);
    assert_eq!(all[0].course_id, 1);
    assert_eq!(all[0].teamsubmission, Some(true));
    assert_eq!(all[0].grade_bits, Some(10.0f64.to_bits()));
    assert_eq!(all[1].course_id, 9);
    assert_eq!(all[1].sendnotifications, Some(false));
    let only_two = normalize_course_assignments(&payload, Some(2));
    assert_eq!(only_two.len(), 1);
    assert_eq!(only_two[0].id, 21);
    assert!(normalize_course_assignments(&num(1), None).is_empty());
}

#[test]
fn submission_status_prefers_last_attempt() {
    let status = normalize_submission_status(&obj(vec![
        (
            "lastattempt",
            obj(vec![
                ("submission", obj(vec![("status", text("submitted")), ("timemodified", num(500))])),
                ("gradingstatus", text("notgraded")),
                ("locked", JsonValue::Bool(false)),
            ]),
        ),
        ("gradingstatus", text("graded")),
        ("canedit", num(1)),
    ]))
    .unwrap();
    assert_eq!(status.submission_status.as_deref(), Some("submitted"));
    assert_eq!(status.grading_status.as_deref(), Some("notgraded"));
    assert_eq!(status.can_edit, Some(true));
    assert_eq!(status.can_submit, None);
    assert_eq!(status.is_locked, Some(false));
    assert_eq!(status.last_modified, Some(500));
    assert!(normalize_submission_status(&obj(vec![("other", num(1))])).is_none());
}

#[test]
fn token_response_reads_token_and_errors() {
    let (token, error, code, debug) = normalize_token_response(&obj(vec![("token", text("abc"))]));
    assert_eq!(token.as_deref(), Some("abc"));
    assert_eq!((error, code, debug), (None, None, None));
    let (token, error, code, _) =
        normalize_token_response(&obj(vec![("error", text("Invalid login")), ("errorcode", text("invalidlogin"))]));
    assert_eq!(token, None);
    assert_eq!(error.as_deref(), Some("Invalid login"));
    assert_eq!(code.as_deref(), Some("invalidlogin"));
    assert_eq!(normalize_token_response(&num(1)), (None, None, None, None));
}

#[test]
fn moodle_exception_joins_present_members() {
    let e = extract_moodle_exception(&obj(vec![
        ("exception", text("moodle_exception")),
        ("errorcode", text("invalidtoken")),
        ("message", text("Invalid token")),
    ]));
    assert_eq!(e.as_deref(), Some("message=Invalid token | errorcode=invalidtoken | exception=moodle_exception"));
    let only_debug = extract_moodle_exception(&obj(vec![("debuginfo", text("x"))]));
    assert_eq!(only_debug, None);
    let with_debug = extract_moodle_exception(&obj(vec![("errorcode", text("c")), ("debuginfo", text("d"))]));
    assert_eq!(with_debug.as_deref(), Some("errorcode=c | debuginfo=d"));
    assert_eq!(extract_moodle_exception(&JsonValue::Array(vec![])), None);
}


#[test]
fn token_reply_gives_token_or_joined_reasons() {
    assert_eq!(token_from_response(&obj(vec![("token", text("t0k"))])), Ok("t0k".to_string()));
    assert_eq!(
        token_from_response(&obj(vec![("error", text("Invalid login")), ("debuginfo", text("d"))])),
        Err("Invalid login | d".to_string())
    );
    assert_eq!(token_from_response(&obj(vec![])), Err("Token request failed".to_string()));
}

#[test]
fn site_info_and_paging() {
    assert_eq!(site_user_id(&obj(vec![("userid", num(7))])), Some(7));
    assert_eq!(site_user_id(&obj(vec![])), None);
    assert_eq!(next_page(&obj(vec![("nextpage", num(2))])), Some(2));
    assert_eq!(next_page(&obj(vec![("nextpage", num(-1))])), None);
    assert_eq!(next_page(&obj(vec![])), None);
}

#[test]
fn course_list_is_ordered_by_full_name() {
    let course = |id: i64, full: &str| obj(vec![("id", num(id)), ("shortname", text("s")), ("fullname", text(full))]);
    let list = JsonValue::Array(vec![
        course(1, "physics"),
        course(2, "Algebra"),
        obj(vec![("id", num(3))]),
        course(4, "algebra"),
        course(5, "Chemistry"),
    ]);
    let courses = normalize_courses(&list).unwrap();
    let ids: Vec<i64> = courses.iter().map(|c| c.id).collect();
    assert_eq!(ids, vec![2, 4, 5, 1]);
    assert!(normalize_courses(&obj(vec![])).is_none());
}

#[test]
fn section_list_keeps_sections_with_ids() {
    let list = JsonValue::Array(vec![obj(vec![("id", num(1))]), obj(vec![("name", text("x"))]), num(3)]);
    let sections = normalize_sections(&list).unwrap();
    assert_eq!(sections.len(), 1);
    assert_eq!(sections[0].id, 1);
    assert!(normalize_sections(&num(1)).is_none());
}

#[test]
fn quizzes_are_read_for_the_course_asked_for() {
    let payload = obj(vec![(
        "quizzes",
        JsonValue::Array(vec![
            obj(vec![("id", num(5)), ("course", num(2)), ("coursemodule", num(50)), ("name", text("Quiz &amp; more")), ("timelimit", num(600))]),
            obj(vec![("id", num(6)), ("course", num(3)), ("coursemodule", num(60)), ("name", text("Other"))]),
            obj(vec![("id", num(7)), ("coursemodule", num(70)), ("name", text("No course"))]),
        ]),
    )]);
    let quizzes = normalize_course_quizzes(&payload, Some(2));
    let ids: Vec<i64> = quizzes.iter().map(|q| q.id).collect();
    assert_eq!(ids, vec![5, 7]);
    assert_eq!(quizzes[0].name, "Quiz & more");
    assert_eq!(quizzes[0].timelimit, Some(600));
    assert_eq!(quizzes[1].course_id, 2);
    assert_eq!(normalize_course_quizzes(&payload, None).len(), 2);
}

#[test]
fn attempts_are_read_and_resumed() {
    let started = normalize_quiz_attempt(&obj(vec![(
        "attempt",
        obj(vec![("id", num(9)), ("quiz", num(5)), ("state", text("inprogress")), ("timestart", num(100))]),
    )]))
    .unwrap();
    assert_eq!((started.id, started.quiz, started.state.as_str()), (9, 5, "inprogress"));
    assert_eq!(started.timestart, Some(100));
    let list = obj(vec![(
        "attempts",
        JsonValue::Array(vec![
            obj(vec![("id", num(1)), ("quiz", num(5)), ("state", text("overdue"))]),
            obj(vec![("id", num(2)), ("quiz", num(5)), ("state", text("inprogress"))]),
        ]),
    )]);
    assert_eq!(pick_unfinished_attempt(&list).unwrap().id, 2);
    let none_running =
        obj(vec![("attempts", JsonValue::Array(vec![obj(vec![("id", num(3)), ("quiz", num(5)), ("state", text("overdue"))])]))]);
    assert_eq!(pick_unfinished_attempt(&none_running).unwrap().id, 3);
    assert!(pick_unfinished_attempt(&obj(vec![("attempts", JsonValue::Array(vec![]))])).is_none());
}

#[test]
fn attempt_data_reads_questions_and_warnings() {
    let html = "<div class=\"qtext\">Pick one</div><input type=\"radio\" name=\"q1:1_answer\" value=\"0\" id=\"a\"><label for=\"a\">A</label>";
    let payload = obj(vec![
        ("attempt", obj(vec![("id", num(9)), ("quiz", num(5)), ("state", text("inprogress"))])),
        (
            "questions",
            JsonValue::Array(vec![
                obj(vec![("slot", num(1)), ("number", num(1)), ("type", text("multichoice")), ("html", text(html))]),
                obj(vec![("number", num(2))]),
            ]),
        ),
        ("warnings", JsonValue::Array(vec![obj(vec![("warningcode", text("w1")), ("message", text("careful"))])])),
    ]);
    let data = normalize_quiz_attempt_data(&payload).unwrap();
    assert_eq!(data.attempt.id, 9);
    assert_eq!(data.questions.len(), 1);
    assert_eq!(data.questions[0].number.as_deref(), Some("1"));
    assert_eq!(data.questions[0].name, "multichoice");
    assert_eq!(data.questions[0].text, "Pick one");
    assert!(!data.questions[0].unsupported);
    assert_eq!(data.questions[0].controls.len(), 1);
    assert_eq!(data.warnings[0].warningcode, "w1");
    assert!(normalize_quiz_attempt_data(&obj(vec![("questions", JsonValue::Array(vec![]))])).is_none());
}
