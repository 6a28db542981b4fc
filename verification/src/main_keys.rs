//! The signed-in screen and what its keys do: the shortcut help, the assignment dialog,
//! the course and content finders, the course page and the dashboard.
use vstd::prelude::*;
use std::collections::HashMap;
use crate::content_finder::{
    build_targets, cycle, filter_positions, filter_spec, target_view, targets_spec, ContentTarget, TargetView,
};
use crate::course_page::{
    course_key_action, course_key_action_of, course_key_post, first_row_with_id, fresh_assignment_modal,
    handle_course_view_key, is_link_command, link_command, no_link_text, position_of_id,
    assignment_load_commands, lemma_course_tree_nonempty,
};
use crate::course_tree::{build_course_tree_rows, course_tree, rows_view, strings_view, CourseTreeRow, RowView};
use crate::models::{
    normalized_base_url, opt_view, AssignmentDetail, Course, QuizSummary, RuntimeConfig, SavedConfig,
    UpcomingAssignment, picked_service,
};
use crate::plugin_settings::PluginSettingsFile;
use crate::plugins::PluginRegistry;
use crate::shortcuts::{
    help_lines, is_shortcut_pressed, settings_total_lines, shortcut_pressed, shortcut_sections_spec,
    KeyCode, KeyPress,
};
use crate::state::{
    AppCommand, AssignmentModalData, CoursePageData, CourseView, DashboardPane, LinkAction,
    PluginApiKeyConfig, PluginInstallConfig, PluginModelPickerConfig, QuizModalData, SettingsPane,
    SettingsPaneState,
};
use crate::text::{contains_chars, contains_seq, chars_of, int_decimal, lowercase, to_lowercase, trim};
use crate::text_input::{insert_at, TextInputState};
use crate::urls::{build_assignment_activity_url, build_course_view_url};
use crate::worker::{DashboardData, ToastState};

verus! {

/// The state of the signed-in screen.
#[derive(Debug, Clone)]
pub struct MainState {
    pub config: Option<RuntimeConfig>,
    pub dashboard: DashboardData<Course>,
    pub view: CourseView,
    pub selected_row: usize,
    pub settings_open: bool,
    pub settings_scroll: u16,
    pub settings_active_pane: SettingsPane,
    pub settings_keybinds: SettingsPaneState,
    pub settings_config: SettingsPaneState,
    pub settings_search_query: String,
    pub settings_search_active: bool,
    pub assignment_modal: Option<AssignmentModalData>,
    pub quiz_modal: Option<QuizModalData>,
    pub course_finder_open: bool,
    pub content_finder_open: bool,
    pub api_key_input: Option<PluginApiKeyConfig>,
    pub model_picker: Option<PluginModelPickerConfig>,
    pub plugin_install_input: Option<PluginInstallConfig>,
    pub finder_query: TextInputState,
    pub finder_selected: usize,
    pub finder_target_idx: usize,
    pub toast: ToastState,
    pub dashboard_focus: DashboardPane,
    pub dashboard_search_query: String,
    pub dashboard_search_active: bool,
    pub dashboard_upcoming_horizontal_scroll: u16,
    pub dashboard_courses_horizontal_scroll: u16,
    pub assignment_list_by_course_id: HashMap<i64, Vec<AssignmentDetail>>,
    pub quiz_list_by_course_id: HashMap<i64, Vec<QuizSummary>>,
    pub plugin_registry: PluginRegistry,
    pub plugin_settings: PluginSettingsFile,
    pub plugin_secret_configured: Vec<String>,
}

impl MainState {
    /// The signed-in screen before anything was loaded: the dashboard with its lists empty,
    /// every dialog and finder closed, nothing selected.
    pub fn new(config: Option<RuntimeConfig>) -> (r: Self)
        ensures
            r.config == config,
            r.dashboard.courses@.len() == 0,
            r.dashboard.upcoming@.len() == 0,
            !r.dashboard.loading,
            r.dashboard.error is None,
            !r.dashboard.from_cache,
            r.view is Dashboard,
            r.selected_row == 0,
            !r.settings_open,
            r.settings_scroll == 0,
            r.assignment_modal is None,
            r.quiz_modal is None,
            !r.course_finder_open,
            !r.content_finder_open,
            r.api_key_input is None,
            r.model_picker is None,
            r.plugin_install_input is None,
            r.finder_query.value@.len() == 0,
            r.finder_query.cursor == 0,
            r.finder_selected == 0,
            r.finder_target_idx == 0,
            r.toast.toast is None,
            r.toast.toast_id == 0,
            r.dashboard_focus == DashboardPane::Upcoming,
            r.assignment_list_by_course_id@ == Map::<i64, Vec<AssignmentDetail>>::empty(),
            r.quiz_list_by_course_id@ == Map::<i64, Vec<QuizSummary>>::empty(),
            r.plugin_registry.plugins@.len() == 0,
            r.plugin_settings.well_formed(),
            r.plugin_secret_configured@.len() == 0,
            r.well_formed(),
    {
        MainState {
            config,
            dashboard: DashboardData {
                courses: Vec::new(),
                upcoming: Vec::new(),
                loading: false,
                error: None,
                from_cache: false,
            },
            view: CourseView::Dashboard,
            selected_row: 0,
            settings_open: false,
            settings_scroll: 0,
            settings_active_pane: SettingsPane::Keybinds,
            settings_keybinds: SettingsPaneState { cursor: 0, scroll: 0, horizontal_scroll: 0 },
            settings_config: SettingsPaneState { cursor: 0, scroll: 0, horizontal_scroll: 0 },
            settings_search_query: String::new(),
            settings_search_active: false,
            assignment_modal: None,
            quiz_modal: None,
            course_finder_open: false,
            content_finder_open: false,
            api_key_input: None,
            model_picker: None,
            plugin_install_input: None,
            finder_query: TextInputState::new(),
            finder_selected: 0,
            finder_target_idx: 0,
            toast: ToastState::new(),
            dashboard_focus: DashboardPane::Upcoming,
            dashboard_search_query: String::new(),
            dashboard_search_active: false,
            dashboard_upcoming_horizontal_scroll: 0,
            dashboard_courses_horizontal_scroll: 0,
            assignment_list_by_course_id: HashMap::new(),
            quiz_list_by_course_id: HashMap::new(),
            plugin_registry: PluginRegistry { plugins: Vec::new() },
            plugin_settings: PluginSettingsFile::new(),
            plugin_secret_configured: Vec::new(),
        }
    }

    /// The dashboard right after a sign-in: loading, showing the cached lists (marked as
    /// cached) when there are any; the rest of the screen is left as it is.
    pub fn begin_dashboard_load(&mut self, cached: Option<(Vec<Course>, Vec<UpcomingAssignment>)>)
        ensures
            *final(self) == (MainState {
                dashboard: match cached {
                    Some((courses, upcoming)) => DashboardData {
                        courses,
                        upcoming,
                        loading: true,
                        from_cache: true,
                        ..old(self).dashboard
                    },
                    None => DashboardData { loading: true, ..old(self).dashboard },
                },
                ..*old(self)
            }),
    {
        self.dashboard.loading = true;
        if let Some((courses, upcoming)) = cached {
            self.dashboard.courses = courses;
            self.dashboard.upcoming = upcoming;
            self.dashboard.from_cache = true;
        }
    }

    /// The bounds the key handling relies on: the finder's cursor inside its text and below
    /// the top of `usize`, the finder's target index inside `isize`, and a course page with
    /// fewer sections than `i64` can count.
    pub open spec fn well_formed(&self) -> bool {
        &&& self.finder_query.cursor <= self.finder_query.value@.len()
        &&& self.finder_query.cursor < usize::MAX
        &&& (self.view matches CourseView::Course(c) ==> c.sections@.len() < 0x7fff_ffff_ffff_ffff)
    }
}

// ---------------------------------------------------------------------------------------
// The shortcut help

/// The height of the help dialog: four fifths of the terminal, rounded down.
pub open spec fn help_height(terminal_height: u16) -> int {
    terminal_height * 4 / 5
}

/// How far the help can scroll in a terminal of the given height.
pub open spec fn help_max_scroll(terminal_height: u16) -> int {
    let viewport = if help_height(terminal_height) >= 3 { help_height(terminal_height) - 3 } else { 0 };
    let total = help_lines(shortcut_sections_spec());
    if total >= viewport { total - viewport } else { 0 }
}

/// The help scroll offset after a key.
pub open spec fn help_scroll_after(scroll: int, max: int, code: KeyCode) -> int {
    let clamped = if scroll < max { scroll } else { max };
    match code {
        KeyCode::Up => if clamped >= 1 { clamped - 1 } else { 0 },
        KeyCode::Down => if scroll + 1 < max { scroll + 1 } else { max },
        KeyCode::PageUp => if clamped >= 10 { clamped - 10 } else { 0 },
        KeyCode::PageDown => if scroll + 10 < max { scroll + 10 } else { max },
        KeyCode::Home => 0,
        KeyCode::End => max,
        _ => scroll,
    }
}

/// A key while the shortcut help is open: the closing shortcut closes it and resets its
/// scroll; arrows, page keys, Home and End scroll it.
pub open spec fn settings_key_post(o: MainState, n: MainState, r: Seq<AppCommand>, key: KeyPress, terminal_height: u16) -> bool {
    &&& r.len() == 0
    &&& if shortcut_pressed("settings-close"@, key) {
        n == (MainState { settings_open: false, settings_scroll: 0, ..o })
    } else {
        n == (MainState {
            settings_scroll: help_scroll_after(
                o.settings_scroll as int,
                help_max_scroll(terminal_height),
                key.code,
            ) as u16,
            ..o
        })
    }
}

/// Scrolling the help down with `key` stays within a `u16`: only Down and Page Down move
/// it forward.
pub open spec fn settings_scroll_fits(o: MainState, key: KeyPress) -> bool {
    !shortcut_pressed("settings-close"@, key) ==> match key.code {
        KeyCode::Down => o.settings_scroll < u16::MAX,
        KeyCode::PageDown => o.settings_scroll <= u16::MAX - 10,
        _ => true,
    }
}

fn handle_settings_key(main: &mut MainState, terminal_height: u16, key: KeyPress) -> (r: Vec<AppCommand>)
    requires
        settings_scroll_fits(*old(main), key),
    ensures
        settings_key_post(*old(main), *final(main), r@, key, terminal_height),
{
    if is_shortcut_pressed("settings-close", key) {
        main.settings_open = false;
        main.settings_scroll = 0;
        return Vec::new();
    }
    let total = settings_total_lines();
    let modal_h: u16 = ((terminal_height as u32) * 4 / 5) as u16;
    let viewport: u16 = if modal_h >= 3 { modal_h - 3 } else { 0 };
    let max_scroll: u16 = if total >= viewport { total - viewport } else { 0 };
    assert(max_scroll == help_max_scroll(terminal_height));
    let scroll = main.settings_scroll;
    let clamped = if scroll < max_scroll { scroll } else { max_scroll };
    match key.code {
        KeyCode::Up => {
            main.settings_scroll = if clamped >= 1 { clamped - 1 } else { 0 };
        },
        KeyCode::Down => {
            main.settings_scroll = if scroll + 1 < max_scroll { scroll + 1 } else { max_scroll };
        },
        KeyCode::PageUp => {
            main.settings_scroll = if clamped >= 10 { clamped - 10 } else { 0 };
        },
        KeyCode::PageDown => {
            main.settings_scroll = if scroll + 10 < max_scroll { scroll + 10 } else { max_scroll };
        },
        KeyCode::Home => {
            main.settings_scroll = 0;
        },
        KeyCode::End => {
            main.settings_scroll = max_scroll;
        },
        _ => {},
    }
    Vec::new()
}

// ---------------------------------------------------------------------------------------
// The assignment dialog

/// The base URL of the signed-in site, or nothing.
pub open spec fn base_of(config: Option<RuntimeConfig>) -> Seq<char> {
    match config {
        Some(c) => c.base_url@,
        None => Seq::empty(),
    }
}

/// The page of an assignment activity on a site.
pub open spec fn assignment_url(base: Seq<char>, cmid: i64) -> Seq<char> {
    normalized_base_url(base) + "/mod/assign/view.php?id="@ + int_decimal(cmid as int)
}

/// The page of a course on a site.
pub open spec fn course_url(base: Seq<char>, course_id: i64) -> Seq<char> {
    normalized_base_url(base) + "/course/view.php?id="@ + int_decimal(course_id as int)
}

/// The link of the assignment dialog: its module page, or else the activity page of the
/// loaded details.
pub open spec fn modal_link(m: AssignmentModalData, config: Option<RuntimeConfig>) -> Option<Seq<char>> {
    match m.module_url {
        Some(u) => Some(u@),
        None => match m.detail {
            Some(d) => Some(assignment_url(base_of(config), d.cmid)),
            None => None,
        },
    }
}

/// The link action of a key, when it has one (opening is checked first).
pub open spec fn link_action_of(key: KeyPress) -> Option<LinkAction> {
    if shortcut_pressed("dashboard-open-link"@, key) {
        Some(LinkAction::Open)
    } else if shortcut_pressed("dashboard-copy-link"@, key) {
        Some(LinkAction::Copy)
    } else {
        None
    }
}

/// A key while the assignment dialog is open: it closes, or opens or copies its link.
pub open spec fn assignment_key_post(o: MainState, n: MainState, r: Seq<AppCommand>, key: KeyPress) -> bool {
    if shortcut_pressed("assignment-modal-close"@, key) {
        n == (MainState { assignment_modal: None, ..o }) && r.len() == 0
    } else {
        &&& n == o
        &&& match (link_action_of(key), o.assignment_modal) {
            (Some(action), Some(m)) => r.len() == 1 && is_link_command(r[0], action, modal_link(m, o.config)),
            _ => r.len() == 0,
        }
    }
}

fn base_url_of(config: &Option<RuntimeConfig>) -> (r: &str)
    ensures
        r@ == base_of(*config),
{
    match config {
        Some(c) => c.base_url.as_str(),
        None => {
            proof {
                reveal_strlit("");
            }
            ""
        },
    }
}

fn handle_assignment_modal_key(main: &mut MainState, key: KeyPress) -> (r: Vec<AppCommand>)
    ensures
        assignment_key_post(*old(main), *final(main), r@, key),
{
    if is_shortcut_pressed("assignment-modal-close", key) {
        main.assignment_modal = None;
        return Vec::new();
    }
    let open = is_shortcut_pressed("dashboard-open-link", key);
    if open || is_shortcut_pressed("dashboard-copy-link", key) {
        let action = if open { LinkAction::Open } else { LinkAction::Copy };
        let modal = match &main.assignment_modal {
            Some(m) => m,
            None => return Vec::new(),
        };
        let url: Option<String> = match &modal.module_url {
            Some(u) => Some(u.clone()),
            None => match &modal.detail {
                Some(d) => Some(build_assignment_activity_url(base_url_of(&main.config), d.cmid)),
                None => None,
            },
        };
        return vec![link_command(action, &url)];
    }
    Vec::new()
}

// ---------------------------------------------------------------------------------------
// The finders

/// The finder's query text in lower case.
pub open spec fn finder_text(o: MainState) -> Seq<char> {
    lowercase(o.finder_query.value@)
}

/// The positions in `picked` whose row text, in lower case, contains `query`.
pub open spec fn text_filter(rows: Seq<RowView>, picked: Seq<int>, query: Seq<char>) -> Seq<int>
    decreases picked.len(),
{
    if picked.len() == 0 {
        Seq::empty()
    } else {
        let rest = text_filter(rows, picked.drop_last(), query);
        if contains_seq(lowercase(rows[picked.last()].text), query) {
            rest.push(picked.last())
        } else {
            rest
        }
    }
}

/// The target the content finder uses: the one at the stored index, or the last one.
pub open spec fn current_target(rows: Seq<RowView>, target_index: int) -> TargetView {
    let targets = targets_spec(rows);
    targets[if target_index < targets.len() - 1 { target_index } else { targets.len() - 1 }]
}

/// The rows that the content finder lists for a page, target and query (already in lower
/// case): those the target selects whose lower-cased text contains the query, or all of
/// them for a blank query; as positions in the page's rows.
pub open spec fn content_matches(rows: Seq<RowView>, target_index: int, query: Seq<char>) -> Seq<int> {
    let by_target = filter_spec(rows, current_target(rows, target_index));
    if trim(query).len() == 0 {
        by_target
    } else {
        text_filter(rows, by_target, query)
    }
}

/// The page rows of a course view.
pub open spec fn page_rows(c: CoursePageData) -> Seq<RowView> {
    course_tree(c.sections@, strings_view(c.collapsed@))
}

/// How many entries the finder lists.
pub open spec fn finder_count(o: MainState, is_course: bool, matches: Seq<usize>) -> int {
    if is_course {
        matches.len() as int
    } else {
        match o.view {
            CourseView::Course(c) => content_matches(page_rows(c), o.finder_target_idx as int, finder_text(o)).len() as int,
            _ => 0,
        }
    }
}

/// A course page that starts loading, for the given course.
pub open spec fn loading_page(p: CoursePageData, course: Course) -> bool {
    &&& p.course_id == course.id
    &&& p.course_short_name == course.shortname
    &&& p.course_full_name == course.fullname
    &&& p.sections@.len() == 0
    &&& p.loading
    &&& p.error is None
    &&& !p.from_cache
    &&& p.collapsed@.len() == 0
    &&& p.selected_row == 0
}

/// The command that loads a course page, when signed in.
pub open spec fn course_load_commands(r: Seq<AppCommand>, config: Option<RuntimeConfig>, course_id: i64) -> bool {
    match config {
        Some(c) => r =~= seq![AppCommand::LoadCoursePage(c, course_id)],
        None => r.len() == 0,
    }
}

/// Whether the key is one of the content finder's target keys.
pub open spec fn is_target_key(key: KeyPress) -> bool {
    shortcut_pressed("course-content-finder-target-prev"@, key)
        || shortcut_pressed("course-content-finder-target-next"@, key)
}

/// The step a target key moves the content finder's target by.
pub open spec fn target_step(key: KeyPress) -> int {
    if shortcut_pressed("course-content-finder-target-prev"@, key) {
        -1
    } else {
        1
    }
}

/// A target key moves the target index (taken as an `isize`) without leaving `isize`.
pub open spec fn target_step_fits(o: MainState, key: KeyPress) -> bool {
    is_target_key(key) ==> isize::MIN <= (o.finder_target_idx as isize) + target_step(key) <= isize::MAX
}

/// The finder's query after a key that edits it.
pub open spec fn query_edit_post(o: MainState, n: MainState, key: KeyPress) -> bool {
    match key.code {
        KeyCode::Char(ch) => {
            &&& n.finder_query.value@ == insert_at(o.finder_query.value@, o.finder_query.cursor as int, ch)
            &&& n.finder_query.cursor == o.finder_query.cursor + 1
            &&& n.finder_query.mask == o.finder_query.mask
            &&& n == (MainState { finder_query: n.finder_query, finder_selected: 0, ..o })
        },
        KeyCode::Backspace => {
            &&& (if o.finder_query.cursor == 0 {
                n.finder_query == o.finder_query
            } else {
                &&& n.finder_query.value@ == o.finder_query.value@.remove(o.finder_query.cursor - 1)
                &&& n.finder_query.cursor == o.finder_query.cursor - 1
                &&& n.finder_query.mask == o.finder_query.mask
            })
            &&& n == (MainState { finder_query: n.finder_query, finder_selected: 0, ..o })
        },
        KeyCode::Left => {
            &&& n.finder_query.value == o.finder_query.value
            &&& n.finder_query.mask == o.finder_query.mask
            &&& n.finder_query.cursor == if o.finder_query.cursor > 0 { (o.finder_query.cursor - 1) as usize } else { 0 }
            &&& n == (MainState { finder_query: n.finder_query, ..o })
        },
        KeyCode::Right => {
            &&& n.finder_query.value == o.finder_query.value
            &&& n.finder_query.mask == o.finder_query.mask
            &&& n.finder_query.cursor == if o.finder_query.cursor < o.finder_query.value@.len() {
                (o.finder_query.cursor + 1) as usize
            } else {
                o.finder_query.cursor
            }
            &&& n == (MainState { finder_query: n.finder_query, ..o })
        },
        _ => n == o,
    }
}

/// A key in a finder (`is_course` for the course finder, where `matches` lists the
/// matching courses by position; else the content finder of the course page).
pub open spec fn finder_key_post(
    o: MainState,
    n: MainState,
    r: Seq<AppCommand>,
    key: KeyPress,
    is_course: bool,
    matches: Seq<usize>,
) -> bool {
    let cancel = if is_course { "course-finder-cancel"@ } else { "course-content-finder-cancel"@ };
    let submit = if is_course { "course-finder-submit"@ } else { "course-content-finder-submit"@ };
    if shortcut_pressed(cancel, key) {
        &&& r.len() == 0
        &&& if is_course {
            n == (MainState { course_finder_open: false, ..o })
        } else {
            n == (MainState { content_finder_open: false, ..o })
        }
    } else if shortcut_pressed(submit, key) && is_course {
        if o.finder_selected < matches.len() {
            let course = o.dashboard.courses@[matches[o.finder_selected as int] as int];
            &&& n.view matches CourseView::Course(p) && loading_page(p, course)
            &&& n == (MainState { course_finder_open: false, view: n.view, selected_row: 0, ..o })
            &&& course_load_commands(r, o.config, course.id)
        } else {
            n == o && r.len() == 0
        }
    } else if shortcut_pressed(submit, key) && !is_course {
        &&& r.len() == 0
        &&& match o.view {
            CourseView::Course(c) => {
                let rows = page_rows(c);
                let listed = content_matches(rows, o.finder_target_idx as int, finder_text(o));
                if o.finder_selected < listed.len() {
                    let picked = rows[listed[o.finder_selected as int]].id;
                    match first_row_with_id(rows, picked, 0) {
                        Some(idx) => n == (MainState {
                            content_finder_open: false,
                            view: CourseView::Course(CoursePageData { selected_row: idx as usize, ..c }),
                            ..o
                        }),
                        None => n == (MainState { content_finder_open: false, ..o }),
                    }
                } else {
                    n == o
                }
            },
            _ => n == o,
        }
    } else if !is_course && is_target_key(key) {
        &&& r.len() == 0
        &&& match o.view {
            CourseView::Course(c) => {
                let len = targets_spec(page_rows(c)).len();
                let delta: int = target_step(key);
                if len <= isize::MAX / 2 {
                    n == (MainState {
                        finder_target_idx: (((o.finder_target_idx as isize) + delta) % (len as int)) as usize,
                        finder_selected: 0,
                        ..o
                    })
                } else {
                    n == (MainState { finder_selected: 0, ..o })
                }
            },
            _ => n == o,
        }
    } else {
        &&& r.len() == 0
        &&& match key.code {
            KeyCode::Up => n == (MainState {
                finder_selected: if o.finder_selected > 0 { (o.finder_selected - 1) as usize } else { 0 },
                ..o
            }),
            KeyCode::Down => n == (MainState {
                finder_selected: if o.finder_selected + 1 < finder_count(o, is_course, matches) {
                    (o.finder_selected + 1) as usize
                } else {
                    o.finder_selected
                },
                ..o
            }),
            _ => query_edit_post(o, n, key),
        }
    }
}

fn course_rows_of(main: &MainState) -> (r: Option<Vec<CourseTreeRow>>)
    requires
        main.well_formed(),
    ensures
        match main.view {
            CourseView::Course(c) => r matches Some(rows) && rows_view(rows@) == page_rows(c),
            _ => r is None,
        },
{
    match &main.view {
        CourseView::Course(c) => Some(build_course_tree_rows(c.sections.as_slice(), &c.collapsed)),
        _ => None,
    }
}

proof fn lemma_targets_nonempty(rows: Seq<RowView>)
    ensures
        targets_spec(rows).len() >= 1,
{
}

/// The positions of the rows the content finder lists.
pub fn content_listing(rows: &Vec<CourseTreeRow>, target_index: usize, query: &TextInputState) -> (r: Vec<usize>)
    ensures
        r@.map_values(|x: usize| x as int) == content_matches(rows_view(rows@), target_index as int, lowercase(query.value@)),
        forall|k: int| 0 <= k < r@.len() ==> r@[k] < rows@.len(),
{
    let ghost rv = rows_view(rows@);
    let targets = build_targets(rows.as_slice());
    proof {
        lemma_targets_nonempty(rv);
        assert(targets@.map_values(|t: ContentTarget| target_view(t)).len() == targets@.len());
    }
    let ti = if target_index < targets.len() - 1 { target_index } else { targets.len() - 1 };
    let target = &targets[ti];
    assert(target_view(*target) == current_target(rv, target_index as int));
    let positions = filter_positions(rows.as_slice(), target);
    let ghost picked = positions@.map_values(|x: usize| x as int);
    let q = to_lowercase(query.value.as_str());
    if crate::text::is_blank(q.as_str()) {
        return positions;
    }
    let qc = chars_of(q.as_str());
    let mut out: Vec<usize> = Vec::new();
    let mut k: usize = 0;
    while k < positions.len()
        invariant
            k <= positions@.len(),
            picked == positions@.map_values(|x: usize| x as int),
            forall|j: int| 0 <= j < positions@.len() ==> positions@[j] < rows@.len(),
            rv == rows_view(rows@),
            qc@ == q@,
            out@.map_values(|x: usize| x as int) == text_filter(rv, picked.take(k as int), q@),
            forall|j: int| 0 <= j < out@.len() ==> out@[j] < rows@.len(),
        decreases positions@.len() - k,
    {
        let idx = positions[k];
        assert(picked.take(k + 1).drop_last() =~= picked.take(k as int));
        assert(picked.take(k + 1).last() == idx as int);
        assert(rv[idx as int] == rows@[idx as int]@);
        let lowered = to_lowercase(rows[idx].text.as_str());
        let keep = contains_chars(&chars_of(lowered.as_str()), &qc);
        let ghost before = out@.map_values(|x: usize| x as int);
        if keep {
            out.push(idx);
            assert(out@.map_values(|x: usize| x as int) =~= before.push(idx as int));
        }
        k += 1;
    }
    assert(picked.take(picked.len() as int) =~= picked);
    out
}

fn load_course_commands(config: &Option<RuntimeConfig>, course_id: i64) -> (r: Vec<AppCommand>)
    ensures
        course_load_commands(r@, *config, course_id),
{
    match config {
        Some(c) => vec![AppCommand::LoadCoursePage(c.duplicate(), course_id)],
        None => Vec::new(),
    }
}

fn loading_page_for(course: &Course) -> (r: CoursePageData)
    ensures
        loading_page(r, *course),
{
    CoursePageData {
        course_id: course.id,
        course_short_name: course.shortname.clone(),
        course_full_name: course.fullname.clone(),
        sections: Vec::new(),
        loading: true,
        error: None,
        from_cache: false,
        collapsed: Vec::new(),
        selected_row: 0,
    }
}

fn edit_query(main: &mut MainState, key: KeyPress)
    requires
        old(main).well_formed(),
    ensures
        query_edit_post(*old(main), *final(main), key),
{
    match key.code {
        KeyCode::Char(ch) => {
            main.finder_query.insert(ch);
            main.finder_selected = 0;
        },
        KeyCode::Backspace => {
            main.finder_query.backspace();
            main.finder_selected = 0;
        },
        KeyCode::Left => main.finder_query.move_left(),
        KeyCode::Right => main.finder_query.move_right(),
        _ => {},
    }
}

/// Handles a key in the course finder (`is_course_finder`, with `course_matches` listing
/// the courses that match the query, by position) or in the content finder.
pub fn handle_finder_key(
    main: &mut MainState,
    key: KeyPress,
    is_course_finder: bool,
    course_matches: &Vec<usize>,
) -> (r: Vec<AppCommand>)
    requires
        old(main).well_formed(),
        forall|k: int| 0 <= k < course_matches@.len() ==> course_matches@[k] < old(main).dashboard.courses@.len(),
        !is_course_finder ==> target_step_fits(*old(main), key),
    ensures
        finder_key_post(*old(main), *final(main), r@, key, is_course_finder, course_matches@),
{
    let cancel = if is_course_finder { "course-finder-cancel" } else { "course-content-finder-cancel" };
    let submit = if is_course_finder { "course-finder-submit" } else { "course-content-finder-submit" };
    if is_shortcut_pressed(cancel, key) {
        if is_course_finder {
            main.course_finder_open = false;
        } else {
            main.content_finder_open = false;
        }
        return Vec::new();
    }
    let submitted = is_shortcut_pressed(submit, key);
    if submitted && is_course_finder {
        if main.finder_selected < course_matches.len() {
            let ci = course_matches[main.finder_selected];
            let page = loading_page_for(&main.dashboard.courses[ci]);
            let course_id = page.course_id;
            main.course_finder_open = false;
            main.view = CourseView::Course(page);
            main.selected_row = 0;
            return load_course_commands(&main.config, course_id);
        }
        return Vec::new();
    }
    if submitted && !is_course_finder {
        let rows = match course_rows_of(main) {
            Some(rows) => rows,
            None => return Vec::new(),
        };
        let listed = content_listing(&rows, main.finder_target_idx, &main.finder_query);
        assert(listed@.map_values(|x: usize| x as int).len() == listed@.len());
        if main.finder_selected < listed.len() {
            let picked = &rows[listed[main.finder_selected]];
            let found = position_of_id(&rows, &picked.id);
            main.content_finder_open = false;
            match found {
                Some(idx) => {
                    match &mut main.view {
                        CourseView::Course(course_mut) => {
                            course_mut.selected_row = idx;
                        },
                        _ => {},
                    }
                },
                None => {},
            }
        }
        return Vec::new();
    }
    let prev = is_shortcut_pressed("course-content-finder-target-prev", key);
    if !is_course_finder && (prev || is_shortcut_pressed("course-content-finder-target-next", key)) {
        let rows = match course_rows_of(main) {
            Some(rows) => rows,
            None => return Vec::new(),
        };
        let targets = build_targets(rows.as_slice());
        proof {
            lemma_targets_nonempty(rows_view(rows@));
            assert(targets@.map_values(|t: ContentTarget| target_view(t)).len() == targets@.len());
        }
        let delta: isize = if prev { -1 } else { 1 };
        if targets.len() <= (isize::MAX / 2) as usize {
            main.finder_target_idx = cycle(main.finder_target_idx, delta, targets.len());
        }
        main.finder_selected = 0;
        return Vec::new();
    }
    match key.code {
        KeyCode::Up => {
            main.finder_selected = if main.finder_selected > 0 { main.finder_selected - 1 } else { 0 };
        },
        KeyCode::Down => {
            let max: usize = if is_course_finder {
                course_matches.len()
            } else {
                match course_rows_of(main) {
                    Some(rows) => {
                        let listed = content_listing(&rows, main.finder_target_idx, &main.finder_query);
                        assert(listed@.map_values(|x: usize| x as int).len() == listed@.len());
                        listed.len()
                    },
                    None => 0,
                }
            };
            if main.finder_selected < max && max - main.finder_selected > 1 {
                main.finder_selected = main.finder_selected + 1;
            }
        },
        _ => edit_query(main, key),
    }
    Vec::new()
}

// ---------------------------------------------------------------------------------------
// The dashboard

/// The other dashboard pane.
pub open spec fn other_pane(p: DashboardPane) -> DashboardPane {
    match p {
        DashboardPane::Upcoming => DashboardPane::Courses,
        DashboardPane::Courses => DashboardPane::Upcoming,
    }
}

/// The length of the list shown in the focused dashboard pane.
pub open spec fn focused_len(o: MainState) -> int {
    match o.dashboard_focus {
        DashboardPane::Upcoming => o.dashboard.upcoming@.len() as int,
        DashboardPane::Courses => o.dashboard.courses@.len() as int,
    }
}

/// The log-out request: the profile and password of the signed-in site, if any, and the
/// storage warning to show on the login screen.
pub open spec fn is_logout(c: AppCommand, config: Option<RuntimeConfig>, storage_warning: Option<String>) -> bool {
    c matches AppCommand::Logout { saved_config, password, storage_warning: w } && {
        &&& w == storage_warning
        &&& match config {
            Some(cfg) => {
                &&& saved_config matches Some(s) && s.base_url@ == normalized_base_url(cfg.base_url@)
                    && s.username@ == trim(cfg.username@) && s.service@ == picked_service(cfg.service@)
                &&& password == Some(cfg.password)
            },
            None => saved_config is None && password is None,
        }
    }
}

/// The name of the course of an upcoming assignment: full, else short, else empty.
pub open spec fn upcoming_course_name(a: UpcomingAssignment) -> Seq<char> {
    match opt_view(a.course_full_name) {
        Some(f) => f,
        None => match opt_view(a.course_short_name) {
            Some(s) => s,
            None => Seq::empty(),
        },
    }
}

/// The assignment list loaded for a course, if any.
pub open spec fn list_for(lists: Map<i64, Vec<AssignmentDetail>>, course_id: i64) -> Option<Seq<AssignmentDetail>> {
    if lists.contains_key(course_id) {
        Some(lists[course_id]@)
    } else {
        None
    }
}

/// The first assignment with the given id in a list.
pub open spec fn detail_with_id(list: Seq<AssignmentDetail>, id: i64, from: int) -> Option<AssignmentDetail>
    decreases list.len() - from,
{
    if from < 0 || from >= list.len() {
        None
    } else if list[from].id == id {
        Some(list[from])
    } else {
        detail_with_id(list, id, from + 1)
    }
}

/// The link commands for the selected upcoming assignment: its activity page when its
/// details are known, else a request to look it up, else the notice that there is none.
pub open spec fn upcoming_link_post(o: MainState, r: Seq<AppCommand>, action: LinkAction) -> bool {
    &&& r.len() == 1
    &&& if o.selected_row >= o.dashboard.upcoming@.len() {
        is_link_command(r[0], action, None)
    } else {
        let a = o.dashboard.upcoming@[o.selected_row as int];
        let known = match list_for(o.assignment_list_by_course_id@, a.course_id) {
            Some(list) => detail_with_id(list, a.id, 0),
            None => None,
        };
        match known {
            Some(d) => is_link_command(r[0], action, Some(assignment_url(base_of(o.config), d.cmid))),
            None => match o.config {
                Some(c) => r[0] == AppCommand::ResolveUpcomingLink {
                    config: c,
                    upcoming_id: a.id,
                    course_id: a.course_id,
                    action,
                },
                None => is_link_command(r[0], action, None),
            },
        }
    }
}

/// The link of the selected course: its own address when not blank, else its course page.
pub open spec fn course_link_post(o: MainState, r: Seq<AppCommand>, action: LinkAction) -> bool {
    &&& r.len() == 1
    &&& if o.selected_row >= o.dashboard.courses@.len() {
        is_link_command(r[0], action, None)
    } else {
        let c = o.dashboard.courses@[o.selected_row as int];
        let url = match opt_view(c.courseurl) {
            Some(u) => if u.len() > 0 { u } else { course_url(base_of(o.config), c.id) },
            None => course_url(base_of(o.config), c.id),
        };
        is_link_command(r[0], action, Some(url))
    }
}

/// A field that is empty and unmasked with the cursor at the start.
pub open spec fn blank_field(f: TextInputState) -> bool {
    f.value@.len() == 0 && f.cursor == 0 && !f.mask
}

/// A key on the dashboard (or a course page key that the page does not take).
pub open spec fn dashboard_key_post(o: MainState, n: MainState, r: Seq<AppCommand>, key: KeyPress, storage_warning: Option<String>) -> bool {
    if shortcut_pressed("quit"@, key) {
        n == o && r =~= seq![AppCommand::Quit]
    } else if shortcut_pressed("settings-open"@, key) {
        n == (MainState { settings_open: true, ..o }) && r.len() == 0
    } else if shortcut_pressed("logout"@, key) {
        n == o && r.len() == 1 && is_logout(r[0], o.config, storage_warning)
    } else if shortcut_pressed("dashboard-refresh"@, key) && o.config is Some {
        &&& n == o
        &&& r =~= seq![
            match o.view {
                CourseView::Dashboard => AppCommand::LoadDashboard(o.config->0),
                CourseView::Course(p) => AppCommand::LoadCoursePage(o.config->0, p.course_id),
            },
        ]
    } else if shortcut_pressed("dashboard-open-finder"@, key) {
        &&& blank_field(n.finder_query)
        &&& n == (MainState { course_finder_open: true, finder_query: n.finder_query, finder_selected: 0, ..o })
        &&& r.len() == 0
    } else if shortcut_pressed("dashboard-open-content-finder"@, key) && o.view is Course {
        &&& blank_field(n.finder_query)
        &&& n == (MainState {
            content_finder_open: true,
            finder_query: n.finder_query,
            finder_selected: 0,
            finder_target_idx: 0,
            ..o
        })
        &&& r.len() == 0
    } else if shortcut_pressed("dashboard-back"@, key) {
        &&& r.len() == 0
        &&& if o.view is Course {
            n == (MainState { view: CourseView::Dashboard, selected_row: 0, ..o })
        } else {
            n == o
        }
    } else if key.code == KeyCode::Tab && o.view is Dashboard {
        n == (MainState { dashboard_focus: other_pane(o.dashboard_focus), selected_row: 0, ..o }) && r.len() == 0
    } else if shortcut_pressed("dashboard-open-assignment-modal"@, key) && o.dashboard_focus == DashboardPane::Upcoming {
        if o.selected_row < o.dashboard.upcoming@.len() {
            let a = o.dashboard.upcoming@[o.selected_row as int];
            &&& n.assignment_modal matches Some(m) && fresh_assignment_modal(
                m,
                a.course_id,
                a.id,
                a.name@,
                upcoming_course_name(a),
                a.due_date,
                None,
                None,
            )
            &&& n == (MainState { assignment_modal: n.assignment_modal, ..o })
            &&& assignment_load_commands(r, o.config, a.course_id, a.id)
        } else {
            n == o && r.len() == 0
        }
    } else if link_action_of(key) is Some && o.view is Dashboard {
        &&& n == o
        &&& match o.dashboard_focus {
            DashboardPane::Upcoming => upcoming_link_post(o, r, link_action_of(key)->0),
            DashboardPane::Courses => course_link_post(o, r, link_action_of(key)->0),
        }
    } else if key.code == KeyCode::Enter && o.dashboard_focus == DashboardPane::Courses {
        if o.selected_row < o.dashboard.courses@.len() {
            let c = o.dashboard.courses@[o.selected_row as int];
            &&& n.view matches CourseView::Course(p) && loading_page(p, c)
            &&& n == (MainState { view: n.view, ..o })
            &&& course_load_commands(r, o.config, c.id)
        } else {
            n == o && r.len() == 0
        }
    } else if shortcut_pressed("dashboard-up"@, key) {
        n == (MainState { selected_row: if o.selected_row > 0 { (o.selected_row - 1) as usize } else { 0 }, ..o })
            && r.len() == 0
    } else if shortcut_pressed("dashboard-down"@, key) {
        let max = if focused_len(o) > 0 { focused_len(o) - 1 } else { 0 };
        &&& n == (MainState {
            selected_row: if o.selected_row < max { (o.selected_row + 1) as usize } else { o.selected_row },
            ..o
        })
        &&& r.len() == 0
    } else if shortcut_pressed("dashboard-home"@, key) {
        n == (MainState { selected_row: 0, ..o }) && r.len() == 0
    } else if shortcut_pressed("dashboard-end"@, key) {
        n == (MainState { selected_row: (if focused_len(o) > 0 { focused_len(o) - 1 } else { 0 }) as usize, ..o })
            && r.len() == 0
    } else {
        n == o && r.len() == 0
    }
}

fn saved_opt(config: &Option<RuntimeConfig>) -> (r: (Option<SavedConfig>, Option<String>))
    ensures
        match *config {
            Some(cfg) => {
                &&& r.0 matches Some(s) && s.base_url@ == normalized_base_url(cfg.base_url@)
                    && s.username@ == trim(cfg.username@) && s.service@ == picked_service(cfg.service@)
                &&& r.1 == Some(cfg.password)
            },
            None => r.0 is None && r.1 is None,
        },
{
    match config {
        Some(c) => (Some(c.saved()), Some(c.password.clone())),
        None => (None, None),
    }
}

fn open_modal_for_upcoming(main: &mut MainState, index: usize) -> (r: Vec<AppCommand>)
    requires
        index < old(main).dashboard.upcoming@.len(),
    ensures
        ({
            let a = old(main).dashboard.upcoming@[index as int];
            &&& final(main).assignment_modal matches Some(m) && fresh_assignment_modal(
                m,
                a.course_id,
                a.id,
                a.name@,
                upcoming_course_name(a),
                a.due_date,
                None,
                None,
            )
            &&& *final(main) == (MainState { assignment_modal: final(main).assignment_modal, ..*old(main) })
            &&& assignment_load_commands(r@, old(main).config, a.course_id, a.id)
        }),
{
    let a = &main.dashboard.upcoming[index];
    let course_name = match &a.course_full_name {
        Some(f) => f.clone(),
        None => match &a.course_short_name {
            Some(s) => s.clone(),
            None => String::new(),
        },
    };
    let modal = AssignmentModalData {
        course_id: a.course_id,
        assignment_id: a.id,
        assignment_name: a.name.clone(),
        course_name,
        due_date: a.due_date,
        module_description: None,
        module_url: None,
        status: None,
        status_loading: true,
        status_error: None,
        detail: None,
        detail_loading: true,
        detail_error: None,
        loading: true,
        error: None,
    };
    let course_id = a.course_id;
    let id = a.id;
    main.assignment_modal = Some(modal);
    match &main.config {
        Some(c) => vec![
            AppCommand::LoadAssignmentDetail(c.duplicate(), course_id, id),
            AppCommand::LoadAssignmentStatus(c.duplicate(), id),
        ],
        None => Vec::new(),
    }
}

fn find_detail(list: &Vec<AssignmentDetail>, id: i64) -> (r: Option<usize>)
    ensures
        match r {
            Some(i) => i < list@.len() && detail_with_id(list@, id, 0) == Some(list@[i as int]),
            None => detail_with_id(list@, id, 0) is None,
        },
{
    let mut i: usize = 0;
    while i < list.len()
        invariant
            i <= list@.len(),
            detail_with_id(list@, id, 0) == detail_with_id(list@, id, i as int),
        decreases list.len() - i,
    {
        if list[i].id == id {
            return Some(i);
        }
        i += 1;
    }
    None
}

fn resolve_upcoming_link_action(main: &MainState, action: LinkAction) -> (r: Vec<AppCommand>)
    ensures
        upcoming_link_post(*main, r@, action),
{
    if main.selected_row >= main.dashboard.upcoming.len() {
        return vec![link_command(action, &None)];
    }
    let a = &main.dashboard.upcoming[main.selected_row];
    proof {
        broadcast use vstd::std_specs::hash::group_hash_axioms;
    }
    match main.assignment_list_by_course_id.get(&a.course_id) {
        Some(list) => {
            match find_detail(list, a.id) {
                Some(di) => {
                    let url = build_assignment_activity_url(base_url_of(&main.config), list[di].cmid);
                    return vec![link_command(action, &Some(url))];
                },
                None => {},
            }
        },
        None => {},
    }
    match &main.config {
        Some(c) => vec![
            AppCommand::ResolveUpcomingLink {
                config: c.duplicate(),
                upcoming_id: a.id,
                course_id: a.course_id,
                action,
            },
        ],
        None => vec![link_command(action, &None)],
    }
}

fn resolve_course_link_action(main: &MainState, action: LinkAction) -> (r: Vec<AppCommand>)
    ensures
        course_link_post(*main, r@, action),
{
    if main.selected_row >= main.dashboard.courses.len() {
        return vec![link_command(action, &None)];
    }
    let c = &main.dashboard.courses[main.selected_row];
    let url = match &c.courseurl {
        Some(u) => if !u.as_str().is_empty() {
            u.clone()
        } else {
            build_course_view_url(base_url_of(&main.config), c.id)
        },
        None => build_course_view_url(base_url_of(&main.config), c.id),
    };
    vec![link_command(action, &Some(url))]
}

fn focused_count(main: &MainState) -> (r: usize)
    ensures
        r == focused_len(*main),
{
    match main.dashboard_focus {
        DashboardPane::Upcoming => main.dashboard.upcoming.len(),
        DashboardPane::Courses => main.dashboard.courses.len(),
    }
}

fn handle_dashboard_key(main: &mut MainState, storage_warning: &Option<String>, key: KeyPress) -> (r: Vec<AppCommand>)
    ensures
        dashboard_key_post(*old(main), *final(main), r@, key, *storage_warning),
{
    if is_shortcut_pressed("quit", key) {
        return vec![AppCommand::Quit];
    }
    if is_shortcut_pressed("settings-open", key) {
        main.settings_open = true;
        return Vec::new();
    }
    if is_shortcut_pressed("logout", key) {
        let (saved_config, password) = saved_opt(&main.config);
        let warning = match storage_warning {
            Some(w) => Some(w.clone()),
            None => None,
        };
        return vec![AppCommand::Logout { saved_config, password, storage_warning: warning }];
    }
    if is_shortcut_pressed("dashboard-refresh", key) {
        match &main.config {
            Some(config) => {
                return match &main.view {
                    CourseView::Dashboard => vec![AppCommand::LoadDashboard(config.duplicate())],
                    CourseView::Course(course) => vec![AppCommand::LoadCoursePage(config.duplicate(), course.course_id)],
                };
            },
            None => {},
        }
    }
    if is_shortcut_pressed("dashboard-open-finder", key) {
        main.course_finder_open = true;
        main.finder_query = TextInputState::new();
        main.finder_selected = 0;
        return Vec::new();
    }
    let in_course = match &main.view {
        CourseView::Course(_) => true,
        CourseView::Dashboard => false,
    };
    if is_shortcut_pressed("dashboard-open-content-finder", key) && in_course {
        main.content_finder_open = true;
        main.finder_query = TextInputState::new();
        main.finder_selected = 0;
        main.finder_target_idx = 0;
        return Vec::new();
    }
    if is_shortcut_pressed("dashboard-back", key) {
        if in_course {
            main.view = CourseView::Dashboard;
            main.selected_row = 0;
        }
        return Vec::new();
    }
    if key.code == KeyCode::Tab && !in_course {
        main.dashboard_focus = main.dashboard_focus.toggle();
        main.selected_row = 0;
        return Vec::new();
    }
    if is_shortcut_pressed("dashboard-open-assignment-modal", key) && main.dashboard_focus == DashboardPane::Upcoming {
        if main.selected_row < main.dashboard.upcoming.len() {
            let index = main.selected_row;
            return open_modal_for_upcoming(main, index);
        }
        return Vec::new();
    }
    let open = is_shortcut_pressed("dashboard-open-link", key);
    if (open || is_shortcut_pressed("dashboard-copy-link", key)) && !in_course {
        let action = if open { LinkAction::Open } else { LinkAction::Copy };
        return match main.dashboard_focus {
            DashboardPane::Upcoming => resolve_upcoming_link_action(main, action),
            DashboardPane::Courses => resolve_course_link_action(main, action),
        };
    }
    if key.code == KeyCode::Enter && main.dashboard_focus == DashboardPane::Courses {
        if main.selected_row < main.dashboard.courses.len() {
            let page = loading_page_for(&main.dashboard.courses[main.selected_row]);
            let course_id = page.course_id;
            main.view = CourseView::Course(page);
            return load_course_commands(&main.config, course_id);
        }
        return Vec::new();
    }
    if is_shortcut_pressed("dashboard-up", key) {
        main.selected_row = if main.selected_row > 0 { main.selected_row - 1 } else { 0 };
        return Vec::new();
    }
    if is_shortcut_pressed("dashboard-down", key) {
        let len = focused_count(main);
        let max = if len > 0 { len - 1 } else { 0 };
        if main.selected_row < max {
            main.selected_row = main.selected_row + 1;
        }
        return Vec::new();
    }
    if is_shortcut_pressed("dashboard-home", key) {
        main.selected_row = 0;
        return Vec::new();
    }
    if is_shortcut_pressed("dashboard-end", key) {
        let len = focused_count(main);
        main.selected_row = if len > 0 { len - 1 } else { 0 };
        return Vec::new();
    }
    Vec::new()
}

// ---------------------------------------------------------------------------------------
// The whole screen

/// What a key does on the signed-in screen: the open help takes every key, then the open
/// assignment dialog, then an open finder, then the course page for its own keys, and the
/// dashboard shortcuts for the rest.
pub open spec fn main_key_post(
    o: MainState,
    n: MainState,
    r: Seq<AppCommand>,
    key: KeyPress,
    storage_warning: Option<String>,
    terminal_height: u16,
    course_matches: Seq<usize>,
) -> bool {
    if o.settings_open {
        settings_key_post(o, n, r, key, terminal_height)
    } else if o.assignment_modal is Some {
        assignment_key_post(o, n, r, key)
    } else if o.course_finder_open {
        finder_key_post(o, n, r, key, true, course_matches)
    } else if o.content_finder_open {
        finder_key_post(o, n, r, key, false, course_matches)
    } else if o.view is Course && course_key_action(key) is Some {
        &&& o.view matches CourseView::Course(oc)
        &&& n.view matches CourseView::Course(nc)
        &&& course_key_post(oc, nc, o.assignment_modal, n.assignment_modal, o.config, key, Some(r))
        &&& n == (MainState { view: n.view, assignment_modal: n.assignment_modal, ..o })
    } else {
        dashboard_key_post(o, n, r, key, storage_warning)
    }
}

/// Handles a key on the signed-in screen; `course_matches` lists, by position, the courses
/// that match the course finder's query, and `terminal_height` sizes the help dialog.
pub fn handle_main_key(
    main: &mut MainState,
    storage_warning: &Option<String>,
    terminal_height: u16,
    course_matches: &Vec<usize>,
    key: KeyPress,
) -> (r: Vec<AppCommand>)
    requires
        old(main).well_formed(),
        old(main).settings_open ==> settings_scroll_fits(*old(main), key),
        forall|k: int| 0 <= k < course_matches@.len() ==> course_matches@[k] < old(main).dashboard.courses@.len(),
        !old(main).settings_open && old(main).assignment_modal is None && !old(main).course_finder_open
            && old(main).content_finder_open ==> target_step_fits(*old(main), key),
    ensures
        main_key_post(*old(main), *final(main), r@, key, *storage_warning, terminal_height, course_matches@),
{
    if main.settings_open {
        return handle_settings_key(main, terminal_height, key);
    }
    if main.assignment_modal.is_some() {
        return handle_assignment_modal_key(main, key);
    }
    if main.course_finder_open {
        return handle_finder_key(main, key, true, course_matches);
    }
    if main.content_finder_open {
        return handle_finder_key(main, key, false, course_matches);
    }
    if course_key_action_of(key).is_some() {
        let config = match &main.config {
            Some(c) => Some(c.duplicate()),
            None => None,
        };
        match &mut main.view {
            CourseView::Course(course) => {
                let commands = handle_course_view_key(course, &mut main.assignment_modal, &config, key);
                match commands {
                    Some(c) => {
                        return c;
                    },
                    None => {},
                }
            },
            CourseView::Dashboard => {},
        }
    }
    handle_dashboard_key(main, storage_warning, key)
}

/// Stores `value` under `key`, replacing what was stored under it.
pub fn store_keyed<T>(entries: &mut HashMap<i64, T>, key: i64, value: T)
    ensures
        final(entries)@ == old(entries)@.insert(key, value),
{
    proof {
        broadcast use vstd::std_specs::hash::group_hash_axioms;
    }
    entries.insert(key, value);
}





} // verus!
