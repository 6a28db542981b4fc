//! The results of background work as events, and how the signed-in screen takes each one.
use vstd::prelude::*;
use crate::main_keys::{store_keyed, MainState};
use crate::models::{
    AssignmentDetail, AssignmentSubmissionStatus, Course, CourseSection, QuizAttempt, QuizAttemptData, QuizSummary,
    RuntimeConfig, SavedConfig, UpcomingAssignment,
};
use crate::plugins::{AiFillResponse, PluginRegistry};
use crate::state::{AppCommand, CourseView};
use crate::worker::{
    assignment_detail_loaded_post, assignment_status_loaded_post, course_page_loaded_post, dashboard_loaded_post,
    next_toast_id, on_assignment_detail_loaded, on_assignment_status_loaded, on_course_page_loaded,
    on_dashboard_loaded, on_plugin_quiz_action_result, on_plugin_registry_changed, on_plugin_setting_saved,
    on_quiz_attempt_finished, on_quiz_attempt_loaded, on_quiz_attempt_saved, on_quiz_attempt_started,
    on_quiz_detail_loaded, plugin_quiz_action_result_post, plugin_registry_changed_post, plugin_setting_saved_post,
    quiz_attempt_finished_post, quiz_attempt_loaded_post, quiz_attempt_saved_post, quiz_attempt_started_post,
    quiz_detail_loaded_post, toast_step,
};

verus! {

/// What background work reports back.
#[derive(Debug)]
pub enum WorkerEvent {
    BootstrapLoaded {
        saved_config: Option<SavedConfig>,
        password: Option<String>,
        storage_warning: Option<String>,
        plugin_registry: PluginRegistry,
    },
    LoginValidated(Result<RuntimeConfig, String>),
    DashboardLoaded(Result<(Vec<Course>, Vec<UpcomingAssignment>), String>),
    CoursePageLoaded { course_id: i64, result: Result<Vec<CourseSection>, String> },
    AssignmentDetailLoaded { assignment_id: i64, result: Result<Option<AssignmentDetail>, String> },
    AssignmentStatusLoaded { assignment_id: i64, result: Result<Option<AssignmentSubmissionStatus>, String> },
    QuizDetailLoaded { course_id: i64, quiz_id: i64, result: Result<Option<QuizSummary>, String> },
    QuizAttemptStarted { quiz_id: i64, result: Result<QuizAttempt, String> },
    QuizAttemptLoaded { attempt_id: i64, result: Result<QuizAttemptData, String> },
    QuizAttemptSaved { attempt_id: i64, result: Result<QuizAttemptData, String> },
    QuizAttemptFinished { attempt_id: i64, result: Result<(), String> },
    PluginQuizActionResult {
        plugin_id: String,
        action_title: String,
        result_kind: Option<String>,
        result: Result<AiFillResponse, String>,
    },
    PluginSettingSaved { plugin_id: String, setting_name: String, secret: bool, result: Result<(), String> },
    PluginRegistryChanged(Result<PluginRegistry, String>),
    Toast(String),
    ToastExpire(u64),
    AssignmentListLoaded { course_id: i64, list: Vec<AssignmentDetail> },
    QuizListLoaded { course_id: i64, list: Vec<QuizSummary> },
}

/// Which stored plugin data has to be read again after an event.
#[derive(Debug, Clone, Copy, PartialEq, Eq, Structural)]
pub enum CacheReload {
    Nothing,
    /// The stored plugin settings.
    Settings,
    /// The stored plugin settings and which plugin secrets are configured.
    SettingsAndSecrets,
}

/// How the signed-in screen `o` becomes `n` on `event`, with `commands` to run and the
/// stored plugin data to read again. Each event goes to the handler of the part of the
/// screen it concerns, and the rest of the screen stays as it was; sign-in events are
/// handled outside the signed-in screen and change nothing here.
pub open spec fn main_event_post(
    o: MainState,
    n: MainState,
    event: WorkerEvent,
    commands: Seq<AppCommand>,
    reload: CacheReload,
) -> bool {
    match event {
        WorkerEvent::DashboardLoaded(result) => {
            &&& dashboard_loaded_post(o.dashboard, n.dashboard, result)
            &&& n == (MainState { dashboard: n.dashboard, ..o })
            &&& commands.len() == 0 && reload == CacheReload::Nothing
        },
        WorkerEvent::CoursePageLoaded { course_id, result } => {
            &&& match o.view {
                CourseView::Course(c) => n.view matches CourseView::Course(d) && course_page_loaded_post(
                    c,
                    d,
                    course_id,
                    result,
                ),
                CourseView::Dashboard => n.view == o.view,
            }
            &&& n == (MainState { view: n.view, ..o })
            &&& commands.len() == 0 && reload == CacheReload::Nothing
        },
        WorkerEvent::AssignmentStatusLoaded { assignment_id, result } => {
            &&& assignment_status_loaded_post(o.assignment_modal, n.assignment_modal, assignment_id, result)
            &&& n == (MainState { assignment_modal: n.assignment_modal, ..o })
            &&& commands.len() == 0 && reload == CacheReload::Nothing
        },
        WorkerEvent::AssignmentDetailLoaded { assignment_id, result } => {
            &&& assignment_detail_loaded_post(o.assignment_modal, n.assignment_modal, assignment_id, result)
            &&& n == (MainState { assignment_modal: n.assignment_modal, ..o })
            &&& commands.len() == 0 && reload == CacheReload::Nothing
        },
        WorkerEvent::QuizDetailLoaded { course_id, quiz_id, result } => {
            &&& quiz_detail_loaded_post(o.quiz_modal, n.quiz_modal, course_id, quiz_id, result)
            &&& n == (MainState { quiz_modal: n.quiz_modal, ..o })
            &&& commands.len() == 0 && reload == CacheReload::Nothing
        },
        WorkerEvent::QuizAttemptStarted { quiz_id, result } => {
            &&& quiz_attempt_started_post(o.quiz_modal, n.quiz_modal, o.config, quiz_id, result, commands)
            &&& n == (MainState { quiz_modal: n.quiz_modal, ..o })
            &&& reload == CacheReload::Nothing
        },
        WorkerEvent::QuizAttemptLoaded { attempt_id, result } => {
            &&& quiz_attempt_loaded_post(o.quiz_modal, n.quiz_modal, attempt_id, result)
            &&& n == (MainState { quiz_modal: n.quiz_modal, ..o })
            &&& commands.len() == 0 && reload == CacheReload::Nothing
        },
        WorkerEvent::QuizAttemptSaved { attempt_id, result } => {
            &&& quiz_attempt_saved_post(o.quiz_modal, n.quiz_modal, o.toast, n.toast, attempt_id, result, commands)
            &&& n == (MainState { quiz_modal: n.quiz_modal, toast: n.toast, ..o })
            &&& reload == CacheReload::Nothing
        },
        WorkerEvent::QuizAttemptFinished { attempt_id: _, result } => {
            &&& quiz_attempt_finished_post(o.quiz_modal, n.quiz_modal, o.toast, n.toast, result, commands)
            &&& n == (MainState { quiz_modal: n.quiz_modal, toast: n.toast, ..o })
            &&& reload == CacheReload::Nothing
        },
        WorkerEvent::PluginQuizActionResult { plugin_id: _, action_title, result_kind, result } => {
            &&& plugin_quiz_action_result_post(
                o.quiz_modal,
                n.quiz_modal,
                o.toast,
                n.toast,
                action_title@,
                result_kind,
                result,
                commands,
            )
            &&& n == (MainState { quiz_modal: n.quiz_modal, toast: n.toast, ..o })
            &&& reload == CacheReload::Nothing
        },
        WorkerEvent::PluginSettingSaved { plugin_id, setting_name, secret, result } => {
            &&& plugin_setting_saved_post(
                o.api_key_input,
                n.api_key_input,
                o.model_picker,
                n.model_picker,
                o.plugin_secret_configured,
                n.plugin_secret_configured,
                o.toast,
                n.toast,
                plugin_id@,
                setting_name@,
                secret,
                result,
                commands,
            )
            &&& n == (MainState {
                api_key_input: n.api_key_input,
                model_picker: n.model_picker,
                plugin_secret_configured: n.plugin_secret_configured,
                toast: n.toast,
                ..o
            })
            &&& reload == CacheReload::Settings
        },
        WorkerEvent::PluginRegistryChanged(result) => {
            &&& plugin_registry_changed_post(
                o.plugin_install_input,
                n.plugin_install_input,
                o.plugin_registry,
                n.plugin_registry,
                o.toast,
                n.toast,
                result,
                commands,
            )
            &&& n == (MainState {
                plugin_install_input: n.plugin_install_input,
                plugin_registry: n.plugin_registry,
                toast: n.toast,
                ..o
            })
            &&& reload == (if result is Ok {
                CacheReload::SettingsAndSecrets
            } else {
                CacheReload::Nothing
            })
        },
        WorkerEvent::Toast(message) => {
            &&& n.toast.toast_id == next_toast_id(o.toast.toast_id)
            &&& n.toast.toast == Some(message)
            &&& commands =~= seq![AppCommand::ScheduleToastExpire(n.toast.toast_id)]
            &&& n == (MainState { toast: n.toast, ..o })
            &&& reload == CacheReload::Nothing
        },
        WorkerEvent::ToastExpire(id) => {
            &&& n.toast.toast_id == o.toast.toast_id
            &&& n.toast.toast == (if o.toast.toast_id == id {
                None
            } else {
                o.toast.toast
            })
            &&& n == (MainState { toast: n.toast, ..o })
            &&& commands.len() == 0 && reload == CacheReload::Nothing
        },
        WorkerEvent::AssignmentListLoaded { course_id, list } => {
            &&& n.assignment_list_by_course_id@ == o.assignment_list_by_course_id@.insert(course_id, list)
            &&& n == (MainState { assignment_list_by_course_id: n.assignment_list_by_course_id, ..o })
            &&& commands.len() == 0 && reload == CacheReload::Nothing
        },
        WorkerEvent::QuizListLoaded { course_id, list } => {
            &&& n.quiz_list_by_course_id@ == o.quiz_list_by_course_id@.insert(course_id, list)
            &&& n == (MainState { quiz_list_by_course_id: n.quiz_list_by_course_id, ..o })
            &&& commands.len() == 0 && reload == CacheReload::Nothing
        },
        WorkerEvent::BootstrapLoaded { .. } | WorkerEvent::LoginValidated(_) => {
            &&& n == o
            &&& commands.len() == 0 && reload == CacheReload::Nothing
        },
    }
}

/// Applies an event to the signed-in screen: the handler of the part of the screen it
/// concerns takes it; the commands to run and the plugin data to read again come back.
/// Whatever the event, the notice changes by one step: a new notice under the next id
/// whose expiry the commands schedule, or the same id with the notice kept or cleared.
pub fn main_event(main: &mut MainState, event: WorkerEvent) -> (r: (Vec<AppCommand>, CacheReload))
    ensures
        main_event_post(*old(main), *final(main), event, r.0@, r.1),
        toast_step(old(main).toast, final(main).toast, r.0@),
{
    match event {
        WorkerEvent::DashboardLoaded(result) => {
            on_dashboard_loaded(&mut main.dashboard, result);
            (Vec::new(), CacheReload::Nothing)
        },
        WorkerEvent::CoursePageLoaded { course_id, result } => {
            match &mut main.view {
                CourseView::Course(course) => {
                    on_course_page_loaded(course, course_id, result);
                },
                CourseView::Dashboard => {},
            }
            (Vec::new(), CacheReload::Nothing)
        },
        WorkerEvent::AssignmentStatusLoaded { assignment_id, result } => {
            on_assignment_status_loaded(&mut main.assignment_modal, assignment_id, result);
            (Vec::new(), CacheReload::Nothing)
        },
        WorkerEvent::AssignmentDetailLoaded { assignment_id, result } => {
            on_assignment_detail_loaded(&mut main.assignment_modal, assignment_id, result);
            (Vec::new(), CacheReload::Nothing)
        },
        WorkerEvent::QuizDetailLoaded { course_id, quiz_id, result } => {
            on_quiz_detail_loaded(&mut main.quiz_modal, course_id, quiz_id, result);
            (Vec::new(), CacheReload::Nothing)
        },
        WorkerEvent::QuizAttemptStarted { quiz_id, result } => {
            let commands = on_quiz_attempt_started(&mut main.quiz_modal, &main.config, quiz_id, result);
            (commands, CacheReload::Nothing)
        },
        WorkerEvent::QuizAttemptLoaded { attempt_id, result } => {
            on_quiz_attempt_loaded(&mut main.quiz_modal, attempt_id, result);
            (Vec::new(), CacheReload::Nothing)
        },
        WorkerEvent::QuizAttemptSaved { attempt_id, result } => {
            let commands = on_quiz_attempt_saved(&mut main.quiz_modal, &mut main.toast, attempt_id, result);
            (commands, CacheReload::Nothing)
        },
        WorkerEvent::QuizAttemptFinished { attempt_id: _, result } => {
            let commands = on_quiz_attempt_finished(&mut main.quiz_modal, &mut main.toast, result);
            (commands, CacheReload::Nothing)
        },
        WorkerEvent::PluginQuizActionResult { plugin_id: _, action_title, result_kind, result } => {
            let commands = on_plugin_quiz_action_result(
                &mut main.quiz_modal,
                &mut main.toast,
                action_title.as_str(),
                &result_kind,
                result,
            );
            (commands, CacheReload::Nothing)
        },
        WorkerEvent::PluginSettingSaved { plugin_id, setting_name, secret, result } => {
            let commands = on_plugin_setting_saved(
                &mut main.api_key_input,
                &mut main.model_picker,
                &mut main.plugin_secret_configured,
                &mut main.toast,
                plugin_id.as_str(),
                setting_name.as_str(),
                secret,
                result,
            );
            (commands, CacheReload::Settings)
        },
        WorkerEvent::PluginRegistryChanged(result) => {
            let changed = result.is_ok();
            let commands = on_plugin_registry_changed(
                &mut main.plugin_install_input,
                &mut main.plugin_registry,
                &mut main.toast,
                result,
            );
            (commands, if changed {
                CacheReload::SettingsAndSecrets
            } else {
                CacheReload::Nothing
            })
        },
        WorkerEvent::Toast(message) => {
            let c = main.toast.show(message);
            (vec![c], CacheReload::Nothing)
        },
        WorkerEvent::ToastExpire(id) => {
            main.toast.expire(id);
            (Vec::new(), CacheReload::Nothing)
        },
        WorkerEvent::AssignmentListLoaded { course_id, list } => {
            store_keyed(&mut main.assignment_list_by_course_id, course_id, list);
            (Vec::new(), CacheReload::Nothing)
        },
        WorkerEvent::QuizListLoaded { course_id, list } => {
            store_keyed(&mut main.quiz_list_by_course_id, course_id, list);
            (Vec::new(), CacheReload::Nothing)
        },
        WorkerEvent::BootstrapLoaded { .. } | WorkerEvent::LoginValidated(_) => (Vec::new(), CacheReload::Nothing),
    }
}

} // verus!
