//! How the application state takes the results of background work: each function here is
//! one kind of event applied to the part of the state it touches.
use vstd::prelude::*;
use crate::course_tree::strings_view;
use crate::models::{
    AssignmentDetail, AssignmentSubmissionStatus, CourseSection, QuizAttempt, QuizAttemptData, QuizSummary,
    RuntimeConfig, UpcomingAssignment,
};
use crate::plugins::{AiFillResponse, PluginRegistry, StudyHelpConfidence};
use crate::quiz_fill::{ai_fill, ai_filled_attempt, answers_view, apply_ai_fill};
use crate::settings::{setting_key, setting_key_spec};
use crate::state::{
    AppCommand, AssignmentModalData, CoursePageData, PluginApiKeyConfig, PluginInstallConfig,
    PluginModelPickerConfig, QuizModalData,
};
use crate::text::{chars_eq_str, chars_of, nat_decimal, push_decimal, push_str};

verus! {

/// The transient notice at the bottom of the screen and the id of the latest one.
#[derive(Debug, Clone)]
pub struct ToastState {
    pub toast: Option<String>,
    pub toast_id: u64,
}

/// The id after `id`, wrapping at the top of `u64`.
pub open spec fn next_toast_id(id: u64) -> u64 {
    if id == u64::MAX {
        0
    } else {
        (id + 1) as u64
    }
}

/// One event's effect on the notice: a new notice under the next id, whose expiry the
/// event's commands schedule; or the same id, with the notice kept or cleared.
pub open spec fn toast_step(before: ToastState, after: ToastState, commands: Seq<AppCommand>) -> bool {
    ||| {
        &&& after.toast_id == next_toast_id(before.toast_id)
        &&& after.toast is Some
        &&& commands.contains(AppCommand::ScheduleToastExpire(after.toast_id))
    }
    ||| {
        &&& after.toast_id == before.toast_id
        &&& (after.toast == before.toast || after.toast is None)
    }
}

impl ToastState {
    /// No notice shown yet.
    pub fn new() -> (r: Self)
        ensures
            r.toast is None,
            r.toast_id == 0,
    {
        ToastState { toast: None, toast_id: 0 }
    }

    /// Shows `message` under a fresh id and asks for it to expire later.
    pub fn show(&mut self, message: String) -> (r: AppCommand)
        ensures
            final(self).toast_id == next_toast_id(old(self).toast_id),
            final(self).toast == Some(message),
            r == AppCommand::ScheduleToastExpire(final(self).toast_id),
            toast_step(*old(self), *final(self), seq![r]),
    {
        self.toast_id = if self.toast_id == u64::MAX {
            0
        } else {
            self.toast_id + 1
        };
        self.toast = Some(message);
        let r = AppCommand::ScheduleToastExpire(self.toast_id);
        assert(seq![r][0] == r);
        r
    }

    /// Clears the notice when `id` is still the latest one.
    pub fn expire(&mut self, id: u64)
        ensures
            final(self).toast_id == old(self).toast_id,
            final(self).toast == (if old(self).toast_id == id {
                None
            } else {
                old(self).toast
            }),
            toast_step(*old(self), *final(self), seq![]),
    {
        if self.toast_id == id {
            self.toast = None;
        }
    }
}

/// The expiry of the latest notice clears it, while the expiry of an earlier notice leaves
/// a newer one on screen.
pub proof fn law_toast_expiry(id: u64)
    ensures
        next_toast_id(id) != next_toast_id(next_toast_id(id)),
        next_toast_id(id) != id,
{
}

/// How many steps of a run of notice states changed the notice's id.
pub open spec fn notices_shown(states: Seq<ToastState>) -> nat
    decreases states.len(),
{
    if states.len() <= 1 {
        0
    } else {
        notices_shown(states.drop_last()) + (if states.last().toast_id != states[states.len() - 2].toast_id {
            1nat
        } else {
            0nat
        })
    }
}

/// `id` advanced `n` times.
pub open spec fn advance_toast_id(id: u64, n: nat) -> u64
    decreases n,
{
    if n == 0 {
        id
    } else {
        next_toast_id(advance_toast_id(id, (n - 1) as nat))
    }
}

/// Over any run of events, each changing the notice as the event handlers allow: the
/// notice's id ends advanced (wrapping) once per notice shown, and a notice on screen at the
/// end is either the one shown before the run, or one whose expiry an event of the run
/// scheduled under its id.
pub proof fn law_toast_run(states: Seq<ToastState>, commands: Seq<Seq<AppCommand>>)
    requires
        states.len() == commands.len() + 1,
        forall|i: int| 0 <= i < commands.len() ==> #[trigger] toast_step(states[i], states[i + 1], commands[i]),
    ensures
        states.last().toast_id == advance_toast_id(states[0].toast_id, notices_shown(states)),
        states.last().toast is Some ==> (states.last().toast == states[0].toast && states.last().toast_id
            == states[0].toast_id) || exists|i: int|
            0 <= i < commands.len() && #[trigger] commands[i].contains(
                AppCommand::ScheduleToastExpire(states.last().toast_id),
            ),
    decreases commands.len(),
{
    if commands.len() > 0 {
        let n = commands.len() as int;
        let prefix = states.drop_last();
        let earlier = commands.drop_last();
        assert forall|i: int| 0 <= i < earlier.len() implies #[trigger] toast_step(
            prefix[i],
            prefix[i + 1],
            earlier[i],
        ) by {
            assert(toast_step(states[i], states[i + 1], commands[i]));
        }
        law_toast_run(prefix, earlier);
        assert(toast_step(states[n - 1], states[n], commands[n - 1]));
        assert(prefix.last() == states[n - 1]);
        assert(prefix[0] == states[0]);
        if states[n].toast_id != states[n - 1].toast_id {
            assert(commands[n - 1].contains(AppCommand::ScheduleToastExpire(states.last().toast_id)));
        } else if states.last().toast is Some {
            assert(states[n].toast == states[n - 1].toast);
            if !(prefix.last().toast == prefix[0].toast && prefix.last().toast_id == prefix[0].toast_id) {
                let i = choose|i: int|
                    0 <= i < earlier.len() && #[trigger] earlier[i].contains(
                        AppCommand::ScheduleToastExpire(prefix.last().toast_id),
                    );
                assert(commands[i] == earlier[i]);
            }
        }
    }
}

/// The dashboard's lists, generic over how a course is held.
#[derive(Debug, Clone)]
pub struct DashboardData<C> {
    pub courses: Vec<C>,
    pub upcoming: Vec<UpcomingAssignment>,
    pub loading: bool,
    pub error: Option<String>,
    pub from_cache: bool,
}

/// What `on_dashboard_loaded` does: how the parts of the state it takes relate before and after, and
/// what it returns.
pub open spec fn dashboard_loaded_post<C>(
    dashboard_before: DashboardData<C>,
    dashboard_after: DashboardData<C>,
    result: Result<(Vec<C>, Vec<UpcomingAssignment>), String>,
) -> bool {
    &&& !dashboard_after.loading
    &&& match result {
        Ok((courses, upcoming)) => {
            &&& dashboard_after.courses == courses
            &&& dashboard_after.upcoming == upcoming
            &&& dashboard_after.error is None
            &&& !dashboard_after.from_cache
        },
        Err(e) => {
            &&& dashboard_after.courses == dashboard_before.courses
            &&& dashboard_after.upcoming == dashboard_before.upcoming
            &&& dashboard_after.error == Some(e)
            &&& dashboard_after.from_cache == dashboard_before.from_cache
        },
    }
}

/// The dashboard takes freshly loaded lists, or keeps its lists and records the error.
pub fn on_dashboard_loaded<C>(
    dashboard: &mut DashboardData<C>,
    result: Result<(Vec<C>, Vec<UpcomingAssignment>), String>,
)
    ensures
        dashboard_loaded_post(*old(dashboard), *final(dashboard), result),
{
    dashboard.loading = false;
    match result {
        Ok((courses, upcoming)) => {
            dashboard.courses = courses;
            dashboard.upcoming = upcoming;
            dashboard.error = None;
            dashboard.from_cache = false;
        },
        Err(error) => {
            dashboard.error = Some(error);
        },
    }
}

/// What `on_course_page_loaded` does: how the parts of the state it takes relate before and after, and
/// what it returns.
pub open spec fn course_page_loaded_post(
    course_before: CoursePageData,
    course_after: CoursePageData,
    course_id: i64,
    result: Result<Vec<CourseSection>, String>,
) -> bool {
    &&& course_before.course_id != course_id ==> course_after == course_before
    &&& course_before.course_id == course_id ==> {
        &&& !course_after.loading
        &&& course_after.course_id == course_before.course_id
        &&& course_after.course_short_name == course_before.course_short_name
        &&& course_after.course_full_name == course_before.course_full_name
        &&& course_after.selected_row == course_before.selected_row
        &&& match result {
            Ok(sections) => {
                &&& course_after.sections == sections
                &&& course_after.error is None
                &&& !course_after.from_cache
                &&& if course_before.sections@.len() == 0 {
                    course_after.collapsed@.len() == 0
                } else {
                    course_after.collapsed == course_before.collapsed
                }
            },
            Err(e) => {
                &&& course_after.sections == course_before.sections
                &&& course_after.error == Some(e)
                &&& course_after.from_cache == course_before.from_cache
                &&& course_after.collapsed == course_before.collapsed
            },
        }
    }
}

/// A course page takes the sections loaded for it; results for another course are ignored.
/// The first sections a page receives start with every node unfolded.
pub fn on_course_page_loaded(
    course: &mut CoursePageData,
    course_id: i64,
    result: Result<Vec<CourseSection>, String>,
)
    ensures
        course_page_loaded_post(*old(course), *final(course), course_id, result),
{
    if course.course_id != course_id {
        return;
    }
    course.loading = false;
    match result {
        Ok(sections) => {
            if course.sections.len() == 0 {
                course.collapsed = Vec::new();
            }
            course.sections = sections;
            course.error = None;
            course.from_cache = false;
        },
        Err(error) => {
            course.error = Some(error);
        },
    }
}

/// What `on_assignment_status_loaded` does: how the parts of the state it takes relate before and after, and
/// what it returns.
pub open spec fn assignment_status_loaded_post(
    modal_before: Option<AssignmentModalData>,
    modal_after: Option<AssignmentModalData>,
    assignment_id: i64,
    result: Result<Option<AssignmentSubmissionStatus>, String>,
) -> bool {
    &&& match modal_before {
        Some(m) if m.assignment_id == assignment_id => modal_after matches Some(f) && {
            &&& !f.status_loading
            &&& f.loading == f.detail_loading
            &&& f.detail_loading == m.detail_loading
            &&& f.detail == m.detail
            &&& f.detail_error == m.detail_error
            &&& f.course_id == m.course_id
            &&& f.assignment_id == m.assignment_id
            &&& f.assignment_name == m.assignment_name
            &&& f.course_name == m.course_name
            &&& f.due_date == m.due_date
            &&& f.module_description == m.module_description
            &&& f.module_url == m.module_url
            &&& f.error == m.error
            &&& match result {
                Ok(status) => f.status == status && f.status_error == m.status_error,
                Err(e) => f.status == m.status && f.status_error == Some(e),
            }
        },
        _ => modal_after == modal_before,
    }
}

/// The assignment dialog takes the submission status loaded for it.
pub fn on_assignment_status_loaded(
    modal: &mut Option<AssignmentModalData>,
    assignment_id: i64,
    result: Result<Option<AssignmentSubmissionStatus>, String>,
)
    ensures
        assignment_status_loaded_post(*old(modal), *final(modal), assignment_id, result),
{
    match modal {
        Some(m) => {
            if m.assignment_id == assignment_id {
                m.status_loading = false;
                match result {
                    Ok(status) => {
                        m.status = status;
                    },
                    Err(error) => {
                        m.status_error = Some(error);
                    },
                }
                m.loading = m.detail_loading || m.status_loading;
            }
        },
        None => {},
    }
}

/// What `on_assignment_detail_loaded` does: how the parts of the state it takes relate before and after, and
/// what it returns.
pub open spec fn assignment_detail_loaded_post(
    modal_before: Option<AssignmentModalData>,
    modal_after: Option<AssignmentModalData>,
    assignment_id: i64,
    result: Result<Option<AssignmentDetail>, String>,
) -> bool {
    &&& match modal_before {
        Some(m) if m.assignment_id == assignment_id => modal_after matches Some(f) && {
            &&& !f.detail_loading
            &&& f.loading == f.status_loading
            &&& f.status_loading == m.status_loading
            &&& f.status == m.status
            &&& f.status_error == m.status_error
            &&& f.course_id == m.course_id
            &&& f.assignment_id == m.assignment_id
            &&& f.assignment_name == m.assignment_name
            &&& f.course_name == m.course_name
            &&& f.due_date == m.due_date
            &&& f.module_description == m.module_description
            &&& f.module_url == m.module_url
            &&& f.error == m.error
            &&& match result {
                Ok(detail) => f.detail == detail && f.detail_error == m.detail_error,
                Err(e) => f.detail == m.detail && f.detail_error == Some(e),
            }
        },
        _ => modal_after == modal_before,
    }
}

/// The assignment dialog takes the assignment details loaded for it.
pub fn on_assignment_detail_loaded(
    modal: &mut Option<AssignmentModalData>,
    assignment_id: i64,
    result: Result<Option<AssignmentDetail>, String>,
)
    ensures
        assignment_detail_loaded_post(*old(modal), *final(modal), assignment_id, result),
{
    match modal {
        Some(m) => {
            if m.assignment_id == assignment_id {
                m.detail_loading = false;
                match result {
                    Ok(detail) => {
                        m.detail = detail;
                    },
                    Err(error) => {
                        m.detail_error = Some(error);
                    },
                }
                m.loading = m.detail_loading || m.status_loading;
            }
        },
        None => {},
    }
}

/// What `on_quiz_detail_loaded` does: how the parts of the state it takes relate before and after, and
/// what it returns.
pub open spec fn quiz_detail_loaded_post(
    modal_before: Option<QuizModalData>,
    modal_after: Option<QuizModalData>,
    course_id: i64,
    quiz_id: i64,
    result: Result<Option<QuizSummary>, String>,
) -> bool {
    &&& match modal_before {
        Some(m) if m.course_id == course_id && m.quiz_id == quiz_id => modal_after == Some(
            match result {
                Ok(summary) => QuizModalData { summary, error: None, loading: false, ..m },
                Err(e) => QuizModalData { error: Some(e), loading: false, ..m },
            },
        ),
        _ => modal_after == modal_before,
    }
}

/// The quiz dialog takes the quiz summary loaded for it.
pub fn on_quiz_detail_loaded(
    modal: &mut Option<QuizModalData>,
    course_id: i64,
    quiz_id: i64,
    result: Result<Option<QuizSummary>, String>,
)
    ensures
        quiz_detail_loaded_post(*old(modal), *final(modal), course_id, quiz_id, result),
{
    match modal {
        Some(m) => {
            if m.course_id == course_id && m.quiz_id == quiz_id {
                match result {
                    Ok(summary) => {
                        m.summary = summary;
                        m.error = None;
                    },
                    Err(error) => {
                        m.error = Some(error);
                    },
                }
                m.loading = false;
            }
        },
        None => {},
    }
}

/// What `on_quiz_attempt_started` does: how the parts of the state it takes relate before and after, and
/// what it returns.
pub open spec fn quiz_attempt_started_post(
    modal_before: Option<QuizModalData>,
    modal_after: Option<QuizModalData>,
    config: Option<RuntimeConfig>,
    quiz_id: i64,
    result: Result<QuizAttempt, String>,
    r: Seq<AppCommand>,
) -> bool {
    &&& match modal_before {
        Some(m) if m.quiz_id == quiz_id => modal_after == Some(
            match result {
                Ok(_) => QuizModalData { loading: true, error: None, ..m },
                Err(e) => QuizModalData { loading: false, error: Some(e), ..m },
            },
        ),
        _ => modal_after == modal_before,
    }
    &&& r =~= (match (result, config) {
        (Ok(attempt), Some(c)) => seq![AppCommand::LoadQuizAttempt(c, attempt.id)],
        _ => Seq::empty(),
    })
}

/// A started attempt puts the dialog back to loading and asks for the attempt's questions;
/// a failure to start is shown in the dialog.
pub fn on_quiz_attempt_started(
    modal: &mut Option<QuizModalData>,
    config: &Option<RuntimeConfig>,
    quiz_id: i64,
    result: Result<QuizAttempt, String>,
) -> (r: Vec<AppCommand>)
    ensures
        quiz_attempt_started_post(*old(modal), *final(modal), *config, quiz_id, result, r@),
{
    match result {
        Ok(attempt) => {
            match modal {
                Some(m) => {
                    if m.quiz_id == quiz_id {
                        m.loading = true;
                        m.error = None;
                    }
                },
                None => {},
            }
            match config {
                Some(c) => vec![AppCommand::LoadQuizAttempt(c.duplicate(), attempt.id)],
                None => Vec::new(),
            }
        },
        Err(error) => {
            match modal {
                Some(m) => {
                    if m.quiz_id == quiz_id {
                        m.loading = false;
                        m.error = Some(error);
                    }
                },
                None => {},
            }
            Vec::new()
        },
    }
}

/// What `on_quiz_attempt_loaded` does: how the parts of the state it takes relate before and after, and
/// what it returns.
pub open spec fn quiz_attempt_loaded_post(
    modal_before: Option<QuizModalData>,
    modal_after: Option<QuizModalData>,
    attempt_id: i64,
    result: Result<QuizAttemptData, String>,
) -> bool {
    &&& match modal_before {
        Some(m) => modal_after == Some(
            match result {
                Ok(a) => if a.attempt.id == attempt_id {
                    QuizModalData {
                        attempt: Some(a),
                        loading: false,
                        saving: false,
                        finishing: false,
                        error: None,
                        selected_question: 0,
                        selected_control: 0,
                        selected_option: 0,
                        ..m
                    }
                } else {
                    m
                },
                Err(e) => QuizModalData { loading: false, error: Some(e), ..m },
            },
        ),
        None => modal_after is None,
    }
}

/// The dialog takes the loaded attempt when it is the one asked for, resetting its busy
/// flags and the selection; an error is shown; another attempt is ignored.
pub fn on_quiz_attempt_loaded(
    modal: &mut Option<QuizModalData>,
    attempt_id: i64,
    result: Result<QuizAttemptData, String>,
)
    ensures
        quiz_attempt_loaded_post(*old(modal), *final(modal), attempt_id, result),
{
    match modal {
        Some(m) => match result {
            Ok(attempt) => {
                if attempt.attempt.id == attempt_id {
                    m.attempt = Some(attempt);
                    m.loading = false;
                    m.saving = false;
                    m.finishing = false;
                    m.error = None;
                    m.selected_question = 0;
                    m.selected_control = 0;
                    m.selected_option = 0;
                }
            },
            Err(error) => {
                m.loading = false;
                m.error = Some(error);
            },
        },
        None => {},
    }
}

/// The text of the notice after the answers were saved.
pub open spec fn saved_text() -> Seq<char> {
    "Quiz answers saved."@
}

/// The text of the notice after the attempt was submitted.
pub open spec fn finished_text() -> Seq<char> {
    "Quiz attempt finished."@
}

/// What `on_quiz_attempt_saved` does: how the parts of the state it takes relate before and after, and
/// what it returns.
pub open spec fn quiz_attempt_saved_post(
    modal_before: Option<QuizModalData>,
    modal_after: Option<QuizModalData>,
    toast_before: ToastState,
    toast_after: ToastState,
    attempt_id: i64,
    result: Result<QuizAttemptData, String>,
    r: Seq<AppCommand>,
) -> bool {
    &&& toast_step(toast_before, toast_after, r)
    &&& match modal_before {
        Some(m) => match result {
            Ok(a) => if a.attempt.id == attempt_id {
                &&& modal_after == Some(QuizModalData { attempt: Some(a), error: None, saving: false, ..m })
                &&& toast_after.toast_id == next_toast_id(toast_before.toast_id)
                &&& toast_after.toast matches Some(t) && t@ == saved_text()
                &&& r =~= seq![AppCommand::ScheduleToastExpire(toast_after.toast_id)]
            } else {
                &&& modal_after == Some(QuizModalData { saving: false, ..m })
                &&& toast_after == toast_before
                &&& r.len() == 0
            },
            Err(e) => {
                &&& modal_after == Some(QuizModalData { saving: false, error: Some(e), ..m })
                &&& toast_after == toast_before
                &&& r.len() == 0
            },
        },
        None => modal_after is None && toast_after == toast_before && r.len() == 0,
    }
}

/// Saving ends: the dialog takes the saved attempt and a notice confirms it, or the error
/// is shown; a reply for another attempt only ends the saving.
pub fn on_quiz_attempt_saved(
    modal: &mut Option<QuizModalData>,
    toast: &mut ToastState,
    attempt_id: i64,
    result: Result<QuizAttemptData, String>,
) -> (r: Vec<AppCommand>)
    ensures
        quiz_attempt_saved_post(*old(modal), *final(modal), *old(toast), *final(toast), attempt_id, result, r@),
{
    match modal {
        Some(m) => {
            m.saving = false;
            match result {
                Ok(attempt) => {
                    if attempt.attempt.id == attempt_id {
                        m.attempt = Some(attempt);
                        m.error = None;
                        let c = toast.show("Quiz answers saved.".to_owned());
                        return vec![c];
                    }
                },
                Err(error) => {
                    m.error = Some(error);
                },
            }
            Vec::new()
        },
        None => Vec::new(),
    }
}

/// What `on_quiz_attempt_finished` does: how the parts of the state it takes relate before and after, and
/// what it returns.
pub open spec fn quiz_attempt_finished_post(
    modal_before: Option<QuizModalData>,
    modal_after: Option<QuizModalData>,
    toast_before: ToastState,
    toast_after: ToastState,
    result: Result<(), String>,
    r: Seq<AppCommand>,
) -> bool {
    &&& toast_step(toast_before, toast_after, r)
    &&& match modal_before {
        Some(m) => match result {
            Ok(()) => {
                &&& modal_after is None
                &&& toast_after.toast_id == next_toast_id(toast_before.toast_id)
                &&& toast_after.toast matches Some(t) && t@ == finished_text()
                &&& r =~= seq![AppCommand::ScheduleToastExpire(toast_after.toast_id)]
            },
            Err(e) => {
                &&& modal_after == Some(
                    QuizModalData { finishing: false, confirm_finish: false, error: Some(e), ..m },
                )
                &&& toast_after == toast_before
                &&& r.len() == 0
            },
        },
        None => modal_after is None && toast_after == toast_before && r.len() == 0,
    }
}

/// Submitting ends: on success the dialog closes and a notice says so; on failure the
/// error is shown and the confirmation is withdrawn.
pub fn on_quiz_attempt_finished(
    modal: &mut Option<QuizModalData>,
    toast: &mut ToastState,
    result: Result<(), String>,
) -> (r: Vec<AppCommand>)
    ensures
        quiz_attempt_finished_post(*old(modal), *final(modal), *old(toast), *final(toast), result, r@),
{
    let finished = match modal {
        Some(m) => {
            m.finishing = false;
            m.confirm_finish = false;
            match result {
                Ok(()) => true,
                Err(error) => {
                    m.error = Some(error);
                    false
                },
            }
        },
        None => return Vec::new(),
    };
    if finished {
        let c = toast.show("Quiz attempt finished.".to_owned());
        *modal = None;
        vec![c]
    } else {
        Vec::new()
    }
}

/// The word for a confidence level.
pub open spec fn confidence_word(c: StudyHelpConfidence) -> Seq<char> {
    match c {
        StudyHelpConfidence::High => "high"@,
        StudyHelpConfidence::Medium => "medium"@,
        StudyHelpConfidence::Low => "low"@,
    }
}

/// `<title> filled <n> answer[s] (<level> confidence)`.
pub open spec fn filled_text(title: Seq<char>, filled: nat, c: StudyHelpConfidence) -> Seq<char> {
    title + " filled "@ + nat_decimal(filled) + " answer"@ + (if filled == 1 {
        ""@
    } else {
        "s"@
    }) + " ("@ + confidence_word(c) + " confidence)"@
}

/// The error shown in the dialog when a plugin's answers fit no control.
pub open spec fn no_answer_error() -> Seq<char> {
    "Plugin returned no applicable answer for this question."@
}

/// The notice shown when a plugin's answers fit no control.
pub open spec fn no_answer_toast() -> Seq<char> {
    "Plugin fill error: no applicable answer returned."@
}

/// The result kind that carries answers to fill in.
pub open spec fn fill_kind() -> Seq<char> {
    "quiz_fill_answers"@
}

fn fill_message(title: &str, filled: usize, confidence: StudyHelpConfidence) -> (r: String)
    ensures
        r@ == filled_text(title@, filled as nat, confidence),
{
    let mut s = String::new();
    push_str(&mut s, title);
    push_str(&mut s, " filled ");
    push_decimal(&mut s, filled as u64);
    push_str(&mut s, " answer");
    if filled != 1 {
        push_str(&mut s, "s");
    }
    proof {
        reveal_strlit("");
    }
    push_str(&mut s, " (");
    let word = match confidence {
        StudyHelpConfidence::High => "high",
        StudyHelpConfidence::Medium => "medium",
        StudyHelpConfidence::Low => "low",
    };
    push_str(&mut s, word);
    push_str(&mut s, " confidence)");
    s
}

fn join3(a: &str, b: &str, c: &str) -> (r: String)
    ensures
        r@ == a@ + b@ + c@,
{
    let mut s = String::new();
    push_str(&mut s, a);
    push_str(&mut s, b);
    push_str(&mut s, c);
    s
}

/// What `on_plugin_quiz_action_result` does: how the parts of the state it takes relate before and after, and
/// what it returns.
pub open spec fn plugin_quiz_action_result_post(
    modal_before: Option<QuizModalData>,
    modal_after: Option<QuizModalData>,
    toast_before: ToastState,
    toast_after: ToastState,
    action_title: Seq<char>,
    result_kind: Option<String>,
    result: Result<AiFillResponse, String>,
    r: Seq<AppCommand>,
) -> bool {
    &&& toast_step(toast_before, toast_after, r)
    &&& match modal_before {
        None => modal_after is None && toast_after == toast_before && r.len() == 0,
        Some(m) => modal_after matches Some(f) && !f.ai_filling && if !(result_kind matches Some(
            k,
        ) && k@ == fill_kind()) {
            &&& f == QuizModalData {
                ai_filling: false,
                error: Some(f.error.unwrap()),
                ..m
            }
            &&& f.error matches Some(e) && e@ == action_title + " returned unsupported result kind."@
            &&& toast_after == toast_before
            &&& r.len() == 0
        } else {
            &&& toast_after.toast_id == next_toast_id(toast_before.toast_id)
            &&& r =~= seq![AppCommand::ScheduleToastExpire(toast_after.toast_id)]
            &&& match result {
                Ok(resp) => {
                    let filled = match m.attempt {
                        Some(att) if m.selected_question < att.questions@.len() => ai_fill(
                            crate::models::controls_view(
                                att.questions@[m.selected_question as int].controls@,
                            ),
                            answers_view(resp.answers@),
                        ).1,
                        _ => 0,
                    };
                    &&& f == (QuizModalData { attempt: f.attempt, ai_filling: false, error: f.error, ..m })
                    &&& ai_filled_attempt(m, f.attempt, resp)
                    &&& if filled == 0 {
                        &&& f.error matches Some(e) && e@ == no_answer_error()
                        &&& toast_after.toast matches Some(t) && t@ == no_answer_toast()
                    } else {
                        &&& f.error == m.error
                        &&& toast_after.toast matches Some(t) && t@ == filled_text(
                            action_title,
                            filled,
                            resp.confidence,
                        )
                    }
                },
                Err(e) => {
                    &&& f == QuizModalData { ai_filling: false, error: Some(e), ..m }
                    &&& toast_after.toast matches Some(t) && t@ == action_title + " error: "@ + e@
                },
            }
        },
    }
}

/// A plugin's quiz action answered: with answers to fill, they are applied to the current
/// question and a notice tells how many were filled (an error when none); a failed action
/// is shown; a reply of another kind is reported as unsupported.
pub fn on_plugin_quiz_action_result(
    modal: &mut Option<QuizModalData>,
    toast: &mut ToastState,
    action_title: &str,
    result_kind: &Option<String>,
    result: Result<AiFillResponse, String>,
) -> (r: Vec<AppCommand>)
    ensures
        plugin_quiz_action_result_post(*old(modal), *final(modal), *old(toast), *final(toast), action_title@, *result_kind, result, r@),
{
    let m = match modal {
        Some(m) => m,
        None => return Vec::new(),
    };
    m.ai_filling = false;
    let supported = match result_kind {
        Some(k) => chars_eq_str(&chars_of(k.as_str()), "quiz_fill_answers"),
        None => false,
    };
    if !supported {
        m.error = Some(join3(action_title, " returned unsupported result kind.", ""));
        proof {
            reveal_strlit("");
            assert(m.error.unwrap()@ =~= action_title@ + " returned unsupported result kind."@);
        }
        return Vec::new();
    }
    match result {
        Ok(response) => {
            let filled = apply_ai_fill(m, &response);
            if filled == 0 {
                m.error = Some("Plugin returned no applicable answer for this question.".to_owned());
                let c = toast.show("Plugin fill error: no applicable answer returned.".to_owned());
                vec![c]
            } else {
                let c = toast.show(fill_message(action_title, filled, response.confidence));
                vec![c]
            }
        },
        Err(error) => {
            let message = join3(action_title, " error: ", error.as_str());
            m.error = Some(error);
            let c = toast.show(message);
            vec![c]
        },
    }
}

/// What `on_plugin_setting_saved` does: how the parts of the state it takes relate before and after, and
/// what it returns.
pub open spec fn plugin_setting_saved_post(
    api_key_input_before: Option<PluginApiKeyConfig>,
    api_key_input_after: Option<PluginApiKeyConfig>,
    model_picker_before: Option<PluginModelPickerConfig>,
    model_picker_after: Option<PluginModelPickerConfig>,
    secret_configured_before: Vec<String>,
    secret_configured_after: Vec<String>,
    toast_before: ToastState,
    toast_after: ToastState,
    plugin_id: Seq<char>,
    setting_name: Seq<char>,
    secret: bool,
    result: Result<(), String>,
    r: Seq<AppCommand>,
) -> bool {
    &&& toast_step(toast_before, toast_after, r)
    &&& toast_after.toast_id == next_toast_id(toast_before.toast_id)
    &&& r =~= seq![AppCommand::ScheduleToastExpire(toast_after.toast_id)]
    &&& match result {
        Ok(()) => {
            &&& api_key_input_after is None
            &&& model_picker_after is None
            &&& strings_view(secret_configured_after@) =~= if secret && !strings_view(
                secret_configured_before@,
            ).contains(setting_key_spec(plugin_id, setting_name)) {
                strings_view(secret_configured_before@).push(setting_key_spec(plugin_id, setting_name))
            } else {
                strings_view(secret_configured_before@)
            }
            &&& toast_after.toast matches Some(t) && t@ == plugin_id + " setting saved."@
        },
        Err(e) => {
            &&& match api_key_input_before {
                Some(i) => api_key_input_after == Some(
                    PluginApiKeyConfig { saving: false, error: Some(e), ..i },
                ),
                None => api_key_input_after is None,
            }
            &&& match model_picker_before {
                Some(p) => model_picker_after == Some(
                    PluginModelPickerConfig { saving: false, error: Some(e), ..p },
                ),
                None => model_picker_after is None,
            }
            &&& secret_configured_after == secret_configured_before
            &&& toast_after.toast matches Some(t) && t@ == "Failed to save setting: "@ + e@
        },
    }
}

/// A plugin setting was saved (or not): on success its prompt closes and a secret setting
/// is marked configured; on failure the open prompt shows the error. A notice tells which.
pub fn on_plugin_setting_saved(
    api_key_input: &mut Option<PluginApiKeyConfig>,
    model_picker: &mut Option<PluginModelPickerConfig>,
    secret_configured: &mut Vec<String>,
    toast: &mut ToastState,
    plugin_id: &str,
    setting_name: &str,
    secret: bool,
    result: Result<(), String>,
) -> (r: Vec<AppCommand>)
    ensures
        plugin_setting_saved_post(*old(api_key_input), *final(api_key_input), *old(model_picker), *final(model_picker), *old(secret_configured), *final(secret_configured), *old(toast), *final(toast), plugin_id@, setting_name@, secret, result, r@),
{
    match result {
        Ok(()) => {
            if secret {
                let key = setting_key(plugin_id, setting_name);
                if !crate::course_tree::contains_string(secret_configured, &key) {
                    secret_configured.push(key);
                    assert(strings_view(secret_configured@) =~= strings_view(
                        old(secret_configured)@,
                    ).push(setting_key_spec(plugin_id@, setting_name@)));
                }
            }
            *api_key_input = None;
            *model_picker = None;
            let c = toast.show(join3(plugin_id, " setting saved.", ""));
            proof {
                reveal_strlit("");
                assert(toast.toast.unwrap()@ =~= plugin_id@ + " setting saved."@);
            }
            vec![c]
        },
        Err(error) => {
            match api_key_input {
                Some(input) => {
                    input.saving = false;
                    input.error = Some(error.clone());
                },
                None => {},
            }
            match model_picker {
                Some(picker) => {
                    picker.saving = false;
                    picker.error = Some(error.clone());
                },
                None => {},
            }
            let c = toast.show(join3("Failed to save setting: ", error.as_str(), ""));
            proof {
                reveal_strlit("");
                assert(toast.toast.unwrap()@ =~= "Failed to save setting: "@ + error@);
            }
            vec![c]
        },
    }
}

/// What `on_plugin_registry_changed` does: how the parts of the state it takes relate before and after, and
/// what it returns.
pub open spec fn plugin_registry_changed_post(
    install_input_before: Option<PluginInstallConfig>,
    install_input_after: Option<PluginInstallConfig>,
    registry_before: PluginRegistry,
    registry_after: PluginRegistry,
    toast_before: ToastState,
    toast_after: ToastState,
    result: Result<PluginRegistry, String>,
    r: Seq<AppCommand>,
) -> bool {
    &&& toast_step(toast_before, toast_after, r)
    &&& toast_after.toast_id == next_toast_id(toast_before.toast_id)
    &&& r =~= seq![AppCommand::ScheduleToastExpire(toast_after.toast_id)]
    &&& match result {
        Ok(reg) => {
            &&& install_input_after is None
            &&& registry_after == reg
            &&& toast_after.toast matches Some(t) && t@ == "Plugin registry updated."@
        },
        Err(e) => {
            &&& match install_input_before {
                Some(i) => install_input_after == Some(
                    PluginInstallConfig { saving: false, error: Some(e), ..i },
                ),
                None => install_input_after is None,
            }
            &&& registry_after == registry_before
            &&& toast_after.toast matches Some(t) && t@ == "Plugin error: "@ + e@
        },
    }
}

/// The plugin registry was reloaded (or not): on success it replaces the old one and the
/// install prompt closes; on failure the install prompt shows the error. A notice tells which.
pub fn on_plugin_registry_changed(
    install_input: &mut Option<PluginInstallConfig>,
    registry: &mut PluginRegistry,
    toast: &mut ToastState,
    result: Result<PluginRegistry, String>,
) -> (r: Vec<AppCommand>)
    ensures
        plugin_registry_changed_post(*old(install_input), *final(install_input), *old(registry), *final(registry), *old(toast), *final(toast), result, r@),
{
    match result {
        Ok(reg) => {
            *install_input = None;
            *registry = reg;
            let c = toast.show("Plugin registry updated.".to_owned());
            vec![c]
        },
        Err(error) => {
            match install_input {
                Some(input) => {
                    input.saving = false;
                    input.error = Some(error.clone());
                },
                None => {},
            }
            let c = toast.show(join3("Plugin error: ", error.as_str(), ""));
            proof {
                reveal_strlit("");
                assert(toast.toast.unwrap()@ =~= "Plugin error: "@ + error@);
            }
            vec![c]
        },
    }
}

} // verus!
