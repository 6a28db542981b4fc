//! Plain data exchanged with Moodle, with their mathematical views.
use vstd::prelude::*;
use crate::text::{string_of_range, trim, trim_bounds, trim_end_char, chars_of, string_of};

verus! {

/// The web-service name used when none is configured.
pub const DEFAULT_MOODLE_SERVICE: &'static str = "moodle_mobile_app";

/// The view of an optional string.
pub open spec fn opt_view(o: Option<String>) -> Option<Seq<char>> {
    match o {
        Some(s) => Some(s@),
        None => None,
    }
}

/// Clones an optional string, keeping its view.
pub fn clone_opt(o: &Option<String>) -> (r: Option<String>)
    ensures
        opt_view(r) == opt_view(*o),
{
    match o {
        Some(s) => Some(s.clone()),
        None => None,
    }
}

/// Login profile kept on disk.
#[derive(Debug, Clone, PartialEq, Eq)]
pub struct SavedConfig {
    pub base_url: String,
    pub username: String,
    pub service: String,
}

/// Everything needed to talk to a Moodle site.
#[derive(Debug, Clone, PartialEq, Eq)]
pub struct RuntimeConfig {
    pub base_url: String,
    pub username: String,
    pub service: String,
    pub password: String,
}

/// A base URL trimmed of whitespace and of every trailing `/`.
pub open spec fn normalized_base_url(raw: Seq<char>) -> Seq<char> {
    trim_end_char(trim(raw), '/')
}

/// The service name: the trimmed input, or the default when that is empty.
pub open spec fn picked_service(raw: Seq<char>) -> Seq<char> {
    if trim(raw).len() == 0 {
        DEFAULT_MOODLE_SERVICE@
    } else {
        trim(raw)
    }
}

/// The default web-service name as an owned string.
pub fn default_service() -> (r: String)
    ensures
        r@ == DEFAULT_MOODLE_SERVICE@,
{
    DEFAULT_MOODLE_SERVICE.to_owned()
}

/// Trims whitespace and trailing slashes from a base URL.
pub fn normalize_base_url(raw: &str) -> (r: String)
    ensures
        r@ == normalized_base_url(raw@),
{
    let v = chars_of(raw);
    let (a, b) = trim_bounds(&v);
    let mut end = b;
    let ghost t = v@.subrange(a as int, b as int);
    while end > a && v[end - 1] == '/'
        invariant
            a <= end <= b <= v@.len(),
            t == v@.subrange(a as int, b as int),
            trim_end_char(t, '/') == trim_end_char(v@.subrange(a as int, end as int), '/'),
        decreases end - a,
    {
        let ghost cur = v@.subrange(a as int, end as int);
        assert(cur.drop_last() =~= v@.subrange(a as int, end - 1));
        end -= 1;
    }
    string_of_range(&v, a, end)
}

/// The trimmed service name, or the default one when it is blank.
pub fn pick_service(raw: &str) -> (r: String)
    ensures
        r@ == picked_service(raw@),
{
    let v = chars_of(raw);
    let (a, b) = trim_bounds(&v);
    if a == b {
        default_service()
    } else {
        string_of_range(&v, a, b)
    }
}

impl RuntimeConfig {
    /// The profile to store: normalized URL, trimmed user name, picked service.
    pub fn saved(&self) -> (r: SavedConfig)
        ensures
            r.base_url@ == normalized_base_url(self.base_url@),
            r.username@ == trim(self.username@),
            r.service@ == picked_service(self.service@),
    {
        let v = chars_of(self.username.as_str());
        let (a, b) = trim_bounds(&v);
        SavedConfig {
            base_url: normalize_base_url(self.base_url.as_str()),
            username: string_of_range(&v, a, b),
            service: pick_service(self.service.as_str()),
        }
    }

    /// A field-by-field copy.
    pub fn duplicate(&self) -> (r: Self)
        ensures
            r == *self,
    {
        RuntimeConfig {
            base_url: self.base_url.clone(),
            username: self.username.clone(),
            service: self.service.clone(),
            password: self.password.clone(),
        }
    }
}

/// What a quiz answer control accepts.
#[derive(Debug, Clone, Copy, PartialEq, Eq, Structural)]
pub enum QuizAnswerKind {
    SingleChoice,
    MultiChoice,
    Text,
    Hidden,
    Unsupported,
}

/// One choice of a radio group, checkbox group or select.
#[derive(Debug, Clone, PartialEq, Eq)]
pub struct QuizAnswerOption {
    pub name: Option<String>,
    pub label: String,
    pub value: String,
    pub selected: bool,
}

/// A form control of a quiz question.
#[derive(Debug, Clone, PartialEq, Eq)]
pub struct QuizAnswerControl {
    pub name: String,
    pub kind: QuizAnswerKind,
    pub options: Vec<QuizAnswerOption>,
    pub value: String,
}

/// The view of a [`QuizAnswerOption`].
pub struct OptionView {
    pub name: Option<Seq<char>>,
    pub label: Seq<char>,
    pub value: Seq<char>,
    pub selected: bool,
}

/// The view of a [`QuizAnswerControl`].
pub struct ControlView {
    pub name: Seq<char>,
    pub kind: QuizAnswerKind,
    pub options: Seq<OptionView>,
    pub value: Seq<char>,
}

impl View for QuizAnswerOption {
    type V = OptionView;

    open spec fn view(&self) -> OptionView {
        OptionView {
            name: opt_view(self.name),
            label: self.label@,
            value: self.value@,
            selected: self.selected,
        }
    }
}

/// Views of a sequence of options.
pub open spec fn options_view(os: Seq<QuizAnswerOption>) -> Seq<OptionView> {
    os.map_values(|o: QuizAnswerOption| o@)
}

impl View for QuizAnswerControl {
    type V = ControlView;

    open spec fn view(&self) -> ControlView {
        ControlView {
            name: self.name@,
            kind: self.kind,
            options: options_view(self.options@),
            value: self.value@,
        }
    }
}

/// Views of a sequence of controls.
pub open spec fn controls_view(cs: Seq<QuizAnswerControl>) -> Seq<ControlView> {
    cs.map_values(|c: QuizAnswerControl| c@)
}

/// A quiz attempt as Moodle reports it.
#[derive(Debug, Clone, PartialEq, Eq)]
pub struct QuizAttempt {
    pub id: i64,
    pub quiz: i64,
    pub state: String,
    pub currentpage: Option<i64>,
    pub timestart: Option<i64>,
    pub timefinish: Option<i64>,
}

/// One question of an attempt with its parsed controls.
#[derive(Debug, Clone, PartialEq, Eq)]
pub struct QuizQuestion {
    pub slot: i64,
    pub number: Option<String>,
    pub name: String,
    pub text: String,
    pub html: String,
    pub controls: Vec<QuizAnswerControl>,
    pub unsupported: bool,
}

/// A warning that Moodle attached to a response.
#[derive(Debug, Clone, PartialEq, Eq)]
pub struct QuizWarning {
    pub item: Option<String>,
    pub itemid: Option<i64>,
    pub warningcode: String,
    pub message: String,
}

/// An attempt together with its questions.
#[derive(Debug, Clone, PartialEq, Eq)]
pub struct QuizAttemptData {
    pub attempt: QuizAttempt,
    pub questions: Vec<QuizQuestion>,
    pub warnings: Vec<QuizWarning>,
}

/// A quiz of a course.
#[derive(Debug, Clone, PartialEq, Eq)]
pub struct QuizSummary {
    pub id: i64,
    pub course_id: i64,
    pub cmid: i64,
    pub name: String,
    pub intro: Option<String>,
    pub timeopen: Option<i64>,
    pub timeclose: Option<i64>,
    pub timelimit: Option<i64>,
    pub attempts: Option<i64>,
}

/// A file or link inside a course module.
#[derive(Debug, Clone, PartialEq, Eq, Default)]
pub struct ModuleContentItem {
    pub kind: Option<String>,
    pub filename: Option<String>,
    pub filepath: Option<String>,
    pub filesize: Option<i64>,
    pub fileurl: Option<String>,
    pub mimetype: Option<String>,
    pub timemodified: Option<i64>,
    pub url: Option<String>,
}

/// An activity or resource inside a course section.
#[derive(Debug, Clone, PartialEq, Eq)]
pub struct CourseModule {
    pub id: i64,
    pub instance: Option<i64>,
    pub name: String,
    pub modname: Option<String>,
    pub description: Option<String>,
    pub url: Option<String>,
    pub visible: Option<i64>,
    pub contents: Vec<ModuleContentItem>,
}

/// A section of a course page.
#[derive(Debug, Clone, PartialEq, Eq)]
pub struct CourseSection {
    pub id: i64,
    pub name: Option<String>,
    pub section: Option<i64>,
    pub summary: Option<String>,
    pub visible: Option<i64>,
    pub modules: Vec<CourseModule>,
}

/// An assignment that is still due.
#[derive(Debug, Clone, PartialEq, Eq)]
pub struct UpcomingAssignment {
    pub id: i64,
    pub name: String,
    pub due_date: i64,
    pub course_id: i64,
    pub course_short_name: Option<String>,
    pub course_full_name: Option<String>,
}

/// A course the user is enrolled in. `progress_bits` holds the completion percentage as
/// the bit pattern of an IEEE-754 double (`f64::to_bits`); the library only carries it.
#[derive(Debug, Clone, PartialEq, Eq)]
pub struct Course {
    pub id: i64,
    pub shortname: String,
    pub fullname: String,
    pub displayname: Option<String>,
    pub categoryid: Option<i64>,
    pub categoryname: Option<String>,
    pub summary: Option<String>,
    pub visible: Option<i64>,
    pub progress_bits: Option<u64>,
    pub courseurl: Option<String>,
}

/// The settings of an assignment. `grade_bits` holds the maximum grade as the bit pattern
/// of an IEEE-754 double (`f64::to_bits`); the library only carries it.
#[derive(Debug, Clone, PartialEq, Eq)]
pub struct AssignmentDetail {
    pub id: i64,
    pub cmid: i64,
    pub course_id: i64,
    pub name: String,
    pub intro: Option<String>,
    pub intro_format: Option<i64>,
    pub always_show_description: Option<bool>,
    pub allowsubmissionsfromdate: Option<i64>,
    pub duedate: Option<i64>,
    pub cutoffdate: Option<i64>,
    pub gradingduedate: Option<i64>,
    pub grade_bits: Option<u64>,
    pub teamsubmission: Option<bool>,
    pub requireallteammemberssubmit: Option<bool>,
    pub maxattempts: Option<i64>,
    pub sendnotifications: Option<bool>,
}

/// Submission and grading state of an assignment.
#[derive(Debug, Clone, PartialEq, Eq, Default)]
pub struct AssignmentSubmissionStatus {
    pub submission_status: Option<String>,
    pub grading_status: Option<String>,
    pub can_submit: Option<bool>,
    pub can_edit: Option<bool>,
    pub is_locked: Option<bool>,
    pub last_modified: Option<i64>,
}

} // verus!
