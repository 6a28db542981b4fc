//! Fixed sample data for running without a Moodle site.
use vstd::prelude::*;
use crate::models::{opt_view, CourseModule, CourseSection, ModuleContentItem, RuntimeConfig, UpcomingAssignment};
use crate::text::{int_decimal, push_i64, push_str};

verus! {

/// The sign-in of the demo site.
pub fn demo_config() -> (r: RuntimeConfig)
    ensures
        r.base_url@ == "https://demo.moodle.example"@,
        r.username@ == "demo"@,
        r.service@ == "moodle_mobile_app"@,
        r.password@ == "demo"@,
{
    RuntimeConfig {
        base_url: "https://demo.moodle.example".to_owned(),
        username: "demo".to_owned(),
        service: "moodle_mobile_app".to_owned(),
        password: "demo".to_owned(),
    }
}

/// `https://demo.moodle.example/mod/<kind>/view.php?id=<course_id>`.
pub open spec fn demo_module_url(kind: Seq<char>, course_id: int) -> Seq<char> {
    "https://demo.moodle.example/mod/"@ + kind + "/view.php?id="@ + int_decimal(course_id)
}

fn module_url(kind: &str, course_id: i64) -> (r: String)
    ensures
        r@ == demo_module_url(kind@, course_id as int),
{
    let mut s = String::new();
    push_str(&mut s, "https://demo.moodle.example/mod/");
    push_str(&mut s, kind);
    push_str(&mut s, "/view.php?id=");
    push_i64(&mut s, course_id);
    s
}

/// A module of the demo course as plain values.
pub open spec fn demo_module_is(
    m: CourseModule,
    id: int,
    instance: i64,
    name: Seq<char>,
    kind: Seq<char>,
    description: Option<Seq<char>>,
    course_id: int,
) -> bool {
    &&& m.id == id
    &&& m.instance == Some(instance)
    &&& m.name@ == name
    &&& opt_view(m.modname) == Some(kind)
    &&& opt_view(m.description) == description
    &&& opt_view(m.url) == Some(demo_module_url(kind, course_id))
    &&& m.visible == Some(1i64)
}

/// The two weeks of the demo course `course_id`: an introduction with a syllabus file and a
/// problem set, and a week with a discussion forum.
pub fn demo_course_sections(course_id: i64) -> (r: Vec<CourseSection>)
    requires
        -9_223_372_036_854_775 <= course_id <= 9_223_372_036_854_775,
    ensures
        r@.len() == 2,
        r@[0].id == course_id * 100 + 1,
        opt_view(r@[0].name) == Some("Week 1: Intro"@),
        r@[0].section == Some(1i64),
        opt_view(r@[0].summary) == Some("<p>Welcome to the course!</p>"@),
        r@[0].visible == Some(1i64),
        r@[0].modules@.len() == 2,
        demo_module_is(
            r@[0].modules@[0],
            course_id * 1000 + 1,
            1,
            "Syllabus"@,
            "resource"@,
            Some("Course syllabus PDF"@),
            course_id as int,
        ),
        r@[0].modules@[0].contents@.len() == 1,
        opt_view(r@[0].modules@[0].contents@[0].kind) == Some("file"@),
        opt_view(r@[0].modules@[0].contents@[0].filename) == Some("syllabus.pdf"@),
        opt_view(r@[0].modules@[0].contents@[0].fileurl) == Some("https://demo.moodle.example/files/syllabus.pdf"@),
        r@[0].modules@[0].contents@[0].filepath is None,
        r@[0].modules@[0].contents@[0].filesize is None,
        r@[0].modules@[0].contents@[0].mimetype is None,
        r@[0].modules@[0].contents@[0].timemodified is None,
        r@[0].modules@[0].contents@[0].url is None,
        demo_module_is(
            r@[0].modules@[1],
            course_id * 1000 + 2,
            2,
            "Problem set 1"@,
            "assign"@,
            Some("First problem set covering chapters 1-2."@),
            course_id as int,
        ),
        r@[0].modules@[1].contents@.len() == 0,
        r@[1].id == course_id * 100 + 2,
        opt_view(r@[1].name) == Some("Week 2: Foundations"@),
        r@[1].section == Some(2i64),
        r@[1].summary is None,
        r@[1].visible == Some(1i64),
        r@[1].modules@.len() == 1,
        demo_module_is(
            r@[1].modules@[0],
            course_id * 1000 + 3,
            3,
            "Discussion forum"@,
            "forum"@,
            None,
            course_id as int,
        ),
        r@[1].modules@[0].contents@.len() == 0,
{
    let syllabus = CourseModule {
        id: course_id * 1000 + 1,
        instance: Some(1),
        name: "Syllabus".to_owned(),
        modname: Some("resource".to_owned()),
        description: Some("Course syllabus PDF".to_owned()),
        url: Some(module_url("resource", course_id)),
        visible: Some(1),
        contents: vec![ModuleContentItem {
            kind: Some("file".to_owned()),
            filename: Some("syllabus.pdf".to_owned()),
            filepath: None,
            filesize: None,
            fileurl: Some("https://demo.moodle.example/files/syllabus.pdf".to_owned()),
            mimetype: None,
            timemodified: None,
            url: None,
        }],
    };
    let problems = CourseModule {
        id: course_id * 1000 + 2,
        instance: Some(2),
        name: "Problem set 1".to_owned(),
        modname: Some("assign".to_owned()),
        description: Some("First problem set covering chapters 1-2.".to_owned()),
        url: Some(module_url("assign", course_id)),
        visible: Some(1),
        contents: Vec::new(),
    };
    let forum = CourseModule {
        id: course_id * 1000 + 3,
        instance: Some(3),
        name: "Discussion forum".to_owned(),
        modname: Some("forum".to_owned()),
        description: None,
        url: Some(module_url("forum", course_id)),
        visible: Some(1),
        contents: Vec::new(),
    };
    let week1 = CourseSection {
        id: course_id * 100 + 1,
        name: Some("Week 1: Intro".to_owned()),
        section: Some(1),
        summary: Some("<p>Welcome to the course!</p>".to_owned()),
        visible: Some(1),
        modules: vec![syllabus, problems],
    };
    let week2 = CourseSection {
        id: course_id * 100 + 2,
        name: Some("Week 2: Foundations".to_owned()),
        section: Some(2),
        summary: None,
        visible: Some(1),
        modules: vec![forum],
    };
    vec![week1, week2]
}

/// An upcoming assignment of the demo data as plain values.
pub open spec fn demo_upcoming_is(
    a: UpcomingAssignment,
    id: i64,
    name: Seq<char>,
    due_date: int,
    course_id: i64,
    short_name: Seq<char>,
    full_name: Seq<char>,
) -> bool {
    &&& a.id == id
    &&& a.name@ == name
    &&& a.due_date == due_date
    &&& a.course_id == course_id
    &&& opt_view(a.course_short_name) == Some(short_name)
    &&& opt_view(a.course_full_name) == Some(full_name)
}

/// The demo assignments, due two, five and nine days after `now` (Unix seconds).
pub fn demo_upcoming_at(now: i64) -> (r: Vec<UpcomingAssignment>)
    requires
        now <= i64::MAX - 86_400 * 9,
    ensures
        r@.len() == 3,
        demo_upcoming_is(r@[0], 11, "Problem set 3"@, now + 86_400 * 2, 1, "MAT101"@, "Mathematics 101"@),
        demo_upcoming_is(r@[1], 12, "Lab report"@, now + 86_400 * 5, 2, "PHY201"@, "Physics 201"@),
        demo_upcoming_is(r@[2], 13, "Essay draft"@, now + 86_400 * 9, 3, "ENG110"@, "English Literature"@),
{
    vec![
        UpcomingAssignment {
            id: 11,
            name: "Problem set 3".to_owned(),
            due_date: now + 86_400 * 2,
            course_id: 1,
            course_short_name: Some("MAT101".to_owned()),
            course_full_name: Some("Mathematics 101".to_owned()),
        },
        UpcomingAssignment {
            id: 12,
            name: "Lab report".to_owned(),
            due_date: now + 86_400 * 5,
            course_id: 2,
            course_short_name: Some("PHY201".to_owned()),
            course_full_name: Some("Physics 201".to_owned()),
        },
        UpcomingAssignment {
            id: 13,
            name: "Essay draft".to_owned(),
            due_date: now + 86_400 * 9,
            course_id: 3,
            course_short_name: Some("ENG110".to_owned()),
            course_full_name: Some("English Literature".to_owned()),
        },
    ]
}

/// The three demo assignments, due two, five and nine days after the current time (a clock
/// so far ahead that those dates would not fit in an `i64` counts as the latest time at
/// which they do).
pub fn demo_upcoming() -> (r: Vec<UpcomingAssignment>)
    ensures
        r@.len() == 3,
        exists|now: i64|
            #![trigger demo_upcoming_is(r@[0], 11, "Problem set 3"@, now + 86_400 * 2, 1, "MAT101"@, "Mathematics 101"@)]
            {
                &&& demo_upcoming_is(r@[0], 11, "Problem set 3"@, now + 86_400 * 2, 1, "MAT101"@, "Mathematics 101"@)
                &&& demo_upcoming_is(r@[1], 12, "Lab report"@, now + 86_400 * 5, 2, "PHY201"@, "Physics 201"@)
                &&& demo_upcoming_is(r@[2], 13, "Essay draft"@, now + 86_400 * 9, 3, "ENG110"@, "English Literature"@)
            },
{
    let clock = crate::clock::unix_now();
    let now = if clock <= i64::MAX - 86_400 * 9 {
        clock
    } else {
        i64::MAX - 86_400 * 9
    };
    demo_upcoming_at(now)
}

} // verus!
