//! Screen state of the application and the commands it asks the runtime to perform.
use vstd::prelude::*;
use crate::text_input::TextInputState;
use crate::models::{
    QuizAttemptData, QuizSummary, RuntimeConfig, SavedConfig, CourseSection,
    AssignmentSubmissionStatus, AssignmentDetail,
};
use crate::plugins::{InstalledPlugin, QuizQuestionContext};

verus! {

/// The login form.
#[derive(Debug, Clone, Default)]
pub struct LoginState {
    pub base_url: TextInputState,
    pub username: TextInputState,
    pub password: TextInputState,
    pub service: TextInputState,
    pub focus: LoginFocus,
    pub busy: bool,
    pub error: Option<String>,
    pub storage_warning: Option<String>,
    pub show_password: bool,
}

/// Which part of the login form has the focus.
#[derive(Debug, Clone, Copy, Default, PartialEq, Eq, Structural)]
pub enum LoginFocus {
    #[default]
    BaseUrl,
    Username,
    Password,
    Service,
    Submit,
}

/// Position of a login field in the tab order.
pub open spec fn focus_index(f: LoginFocus) -> int {
    match f {
        LoginFocus::BaseUrl => 0,
        LoginFocus::Username => 1,
        LoginFocus::Password => 2,
        LoginFocus::Service => 3,
        LoginFocus::Submit => 4,
    }
}

impl LoginFocus {
    /// The next field in the tab order, wrapping from Submit to BaseUrl.
    pub fn next(self) -> (r: Self)
        ensures
            focus_index(r) == (focus_index(self) + 1) % 5,
    {
        match self {
            LoginFocus::BaseUrl => LoginFocus::Username,
            LoginFocus::Username => LoginFocus::Password,
            LoginFocus::Password => LoginFocus::Service,
            LoginFocus::Service => LoginFocus::Submit,
            LoginFocus::Submit => LoginFocus::BaseUrl,
        }
    }

    /// The previous field in the tab order, wrapping from BaseUrl to Submit.
    pub fn prev(self) -> (r: Self)
        ensures
            focus_index(r) == (focus_index(self) + 4) % 5,
    {
        match self {
            LoginFocus::BaseUrl => LoginFocus::Submit,
            LoginFocus::Username => LoginFocus::BaseUrl,
            LoginFocus::Password => LoginFocus::Username,
            LoginFocus::Service => LoginFocus::Password,
            LoginFocus::Submit => LoginFocus::Service,
        }
    }
}

/// Positions in the tab order name the fields one to one.
pub proof fn lemma_focus_index_injective(a: LoginFocus, b: LoginFocus)
    ensures
        focus_index(a) == focus_index(b) ==> a == b,
        0 <= focus_index(a) < 5,
{
}

/// Going to the next field and back (or back and then forward) returns to the same field,
/// and five steps forward go round the whole form.
pub proof fn law_focus_cycle(f: LoginFocus, n: LoginFocus, p: LoginFocus)
    requires
        focus_index(n) == (focus_index(f) + 1) % 5,
        focus_index(p) == (focus_index(n) + 4) % 5,
    ensures
        p == f,
{
    lemma_focus_index_injective(p, f);
}

/// Which settings pane is active.
#[derive(Debug, Clone, Copy, Default, PartialEq, Eq, Structural)]
pub enum SettingsPane {
    #[default]
    Keybinds,
    Config,
}

impl SettingsPane {
    /// The other pane.
    pub fn toggle(self) -> (r: Self)
        ensures
            r != self,
    {
        match self {
            SettingsPane::Keybinds => SettingsPane::Config,
            SettingsPane::Config => SettingsPane::Keybinds,
        }
    }
}

/// Which dashboard pane has the focus.
#[derive(Debug, Clone, Copy, Default, PartialEq, Eq, Structural)]
pub enum DashboardPane {
    #[default]
    Upcoming,
    Courses,
}

impl DashboardPane {
    /// The other pane.
    pub fn toggle(self) -> (r: Self)
        ensures
            r != self,
    {
        match self {
            DashboardPane::Upcoming => DashboardPane::Courses,
            DashboardPane::Courses => DashboardPane::Upcoming,
        }
    }
}

/// Toggling a pane twice gives the pane back (both for the settings and the dashboard).
pub proof fn law_toggle_twice(s: SettingsPane, d: DashboardPane, s1: SettingsPane, s2: SettingsPane, d1: DashboardPane, d2: DashboardPane)
    requires
        s1 != s,
        s2 != s1,
        d1 != d,
        d2 != d1,
    ensures
        s2 == s,
        d2 == d,
{
}

/// Cursor and scroll offsets of a settings pane.
#[derive(Debug, Clone, Default)]
pub struct SettingsPaneState {
    pub cursor: usize,
    pub scroll: u16,
    pub horizontal_scroll: u16,
}

/// What to do with a link.
#[derive(Debug, Clone, Copy, PartialEq, Eq, Structural)]
pub enum LinkAction {
    Open,
    Copy,
}

/// A course page with its tree of sections; `collapsed` holds the ids of collapsed nodes.
#[derive(Debug, Clone, Default)]
pub struct CoursePageData {
    pub course_id: i64,
    pub course_short_name: String,
    pub course_full_name: String,
    pub sections: Vec<CourseSection>,
    pub loading: bool,
    pub error: Option<String>,
    pub from_cache: bool,
    pub collapsed: Vec<String>,
    pub selected_row: usize,
}

/// What the main area shows.
#[derive(Debug, Clone, Default)]
pub enum CourseView {
    #[default]
    Dashboard,
    Course(CoursePageData),
}

/// Prompt for a plugin setting typed as text.
#[derive(Debug, Clone)]
pub struct PluginApiKeyConfig {
    pub input: TextInputState,
    pub plugin_id: String,
    pub setting_name: String,
    pub secret: bool,
    pub saving: bool,
    pub error: Option<String>,
    pub title: String,
    pub current_value: String,
}

/// Picker for a plugin setting with fixed options.
#[derive(Debug, Clone)]
pub struct PluginModelPickerConfig {
    pub plugin_id: String,
    pub setting_name: String,
    pub secret: bool,
    pub title: String,
    pub options: Vec<String>,
    pub selected: usize,
    pub saving: bool,
    pub error: Option<String>,
}

/// Prompt for the directory of a plugin to install.
#[derive(Debug, Clone)]
pub struct PluginInstallConfig {
    pub input: TextInputState,
    pub saving: bool,
    pub error: Option<String>,
}

/// The quiz dialog.
#[derive(Debug, Clone)]
pub struct QuizModalData {
    pub course_id: i64,
    pub quiz_id: i64,
    pub cmid: i64,
    pub quiz_name: String,
    pub course_name: String,
    pub module_description: Option<String>,
    pub module_url: Option<String>,
    pub summary: Option<QuizSummary>,
    pub attempt: Option<QuizAttemptData>,
    pub loading: bool,
    pub saving: bool,
    pub finishing: bool,
    pub ai_filling: bool,
    pub confirm_finish: bool,
    pub error: Option<String>,
    pub selected_question: usize,
    pub selected_control: usize,
    pub selected_option: usize,
    pub editing_text: bool,
}

/// Work the runtime performs for the state.
#[derive(Debug, Clone)]
pub enum AppCommand {
    Bootstrap,
    ValidateLogin(RuntimeConfig),
    LoadDashboard(RuntimeConfig),
    LoadCoursePage(RuntimeConfig, i64),
    LoadAssignmentDetail(RuntimeConfig, i64, i64),
    LoadAssignmentStatus(RuntimeConfig, i64),
    LoadQuizDetail(RuntimeConfig, i64, i64),
    StartQuizAttempt(RuntimeConfig, i64),
    LoadQuizAttempt(RuntimeConfig, i64),
    SaveQuizAttempt(RuntimeConfig, QuizAttemptData),
    FinishQuizAttempt(RuntimeConfig, QuizAttemptData),
    OpenUrl(String),
    CopyToClipboard(String),
    ShowToast(String),
    ResolveUpcomingLink { config: RuntimeConfig, upcoming_id: i64, course_id: i64, action: LinkAction },
    InvokePluginQuizAction {
        plugin: InstalledPlugin,
        action_id: String,
        result_kind: Option<String>,
        question_context: QuizQuestionContext,
    },
    SavePluginSetting { plugin_id: String, setting_name: String, secret: bool, value: String },
    InstallPluginFromDir(String),
    UninstallPlugin(String),
    ReloadPlugins,
    Logout { saved_config: Option<SavedConfig>, password: Option<String>, storage_warning: Option<String> },
    ScheduleToastExpire(u64),
    Quit,
}

/// The assignment dialog.
#[derive(Debug, Clone)]
pub struct AssignmentModalData {
    pub course_id: i64,
    pub assignment_id: i64,
    pub assignment_name: String,
    pub course_name: String,
    pub due_date: i64,
    pub module_description: Option<String>,
    pub module_url: Option<String>,
    pub status: Option<AssignmentSubmissionStatus>,
    pub status_loading: bool,
    pub status_error: Option<String>,
    pub detail: Option<AssignmentDetail>,
    pub detail_loading: bool,
    pub detail_error: Option<String>,
    pub loading: bool,
    pub error: Option<String>,
}

} // verus!
