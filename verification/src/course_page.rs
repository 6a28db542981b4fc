//! Keyboard handling on a course page: moving through the tree, folding nodes, following
//! links and opening the assignment dialog of a module.
use vstd::prelude::*;
use crate::course_tree::{
    build_course_tree_rows, contains_string, course_tree, rows_view, section_rows, sections_rows,
    strings_view, CourseTreeNodeKind, CourseTreeRow, RowView,
};
use crate::models::{clone_opt, opt_view, CourseModule, CourseSection, RuntimeConfig};
use crate::shortcuts::{is_shortcut_pressed, shortcut_pressed, KeyPress};
use crate::state::{AppCommand, AssignmentModalData, CoursePageData, LinkAction};
use crate::text::{chars_eq, chars_eq_str, chars_of, find_char, find_char_in, string_of_range};
use crate::html::digits_value;

verus! {

/// What a key does on a course page.
#[derive(Debug, Clone, Copy, PartialEq, Eq, Structural)]
pub enum CourseKeyAction {
    Up,
    Down,
    Home,
    End,
    PageUp,
    PageDown,
    Expand,
    Collapse,
    OpenLink,
    CopyLink,
    OpenAssignment,
}

/// The course-page action of a key, checked in this order; `None` when the key has none.
pub open spec fn course_key_action(key: KeyPress) -> Option<CourseKeyAction> {
    if shortcut_pressed("dashboard-up"@, key) {
        Some(CourseKeyAction::Up)
    } else if shortcut_pressed("dashboard-down"@, key) {
        Some(CourseKeyAction::Down)
    } else if shortcut_pressed("dashboard-home"@, key) {
        Some(CourseKeyAction::Home)
    } else if shortcut_pressed("dashboard-end"@, key) {
        Some(CourseKeyAction::End)
    } else if shortcut_pressed("dashboard-page-up"@, key) {
        Some(CourseKeyAction::PageUp)
    } else if shortcut_pressed("dashboard-page-down"@, key) {
        Some(CourseKeyAction::PageDown)
    } else if shortcut_pressed("dashboard-expand"@, key) {
        Some(CourseKeyAction::Expand)
    } else if shortcut_pressed("dashboard-collapse"@, key) {
        Some(CourseKeyAction::Collapse)
    } else if shortcut_pressed("dashboard-open-link"@, key) {
        Some(CourseKeyAction::OpenLink)
    } else if shortcut_pressed("dashboard-copy-link"@, key) {
        Some(CourseKeyAction::CopyLink)
    } else if shortcut_pressed("dashboard-open-assignment-modal"@, key) {
        Some(CourseKeyAction::OpenAssignment)
    } else {
        None
    }
}

/// The course-page action of a key.
pub fn course_key_action_of(key: KeyPress) -> (r: Option<CourseKeyAction>)
    ensures
        r == course_key_action(key),
{
    if is_shortcut_pressed("dashboard-up", key) {
        Some(CourseKeyAction::Up)
    } else if is_shortcut_pressed("dashboard-down", key) {
        Some(CourseKeyAction::Down)
    } else if is_shortcut_pressed("dashboard-home", key) {
        Some(CourseKeyAction::Home)
    } else if is_shortcut_pressed("dashboard-end", key) {
        Some(CourseKeyAction::End)
    } else if is_shortcut_pressed("dashboard-page-up", key) {
        Some(CourseKeyAction::PageUp)
    } else if is_shortcut_pressed("dashboard-page-down", key) {
        Some(CourseKeyAction::PageDown)
    } else if is_shortcut_pressed("dashboard-expand", key) {
        Some(CourseKeyAction::Expand)
    } else if is_shortcut_pressed("dashboard-collapse", key) {
        Some(CourseKeyAction::Collapse)
    } else if is_shortcut_pressed("dashboard-open-link", key) {
        Some(CourseKeyAction::OpenLink)
    } else if is_shortcut_pressed("dashboard-copy-link", key) {
        Some(CourseKeyAction::CopyLink)
    } else if is_shortcut_pressed("dashboard-open-assignment-modal", key) {
        Some(CourseKeyAction::OpenAssignment)
    } else {
        None
    }
}

/// The selected row clamped to the last row.
pub open spec fn clamped(sel: int, n: int) -> int {
    if sel < n - 1 {
        sel
    } else {
        n - 1
    }
}

/// The first row at or after `from` whose id is `id`.
pub open spec fn first_row_with_id(rows: Seq<RowView>, id: Seq<char>, from: int) -> Option<int>
    decreases rows.len() - from,
{
    if from < 0 || from >= rows.len() {
        None
    } else if rows[from].id == id {
        Some(from)
    } else {
        first_row_with_id(rows, id, from + 1)
    }
}

/// The selected row after `action`, from the row stored before it.
pub open spec fn selection_after(rows: Seq<RowView>, old_sel: int, action: CourseKeyAction) -> int {
    let n = rows.len() as int;
    let sel = clamped(old_sel, n);
    match action {
        CourseKeyAction::Up => if sel > 0 { sel - 1 } else { 0 },
        CourseKeyAction::Down => if sel + 1 < n { sel + 1 } else { old_sel },
        CourseKeyAction::Home => 0,
        CourseKeyAction::End => n - 1,
        CourseKeyAction::PageUp => if sel >= 10 { sel - 10 } else { 0 },
        CourseKeyAction::PageDown => if sel + 10 < n - 1 { sel + 10 } else { n - 1 },
        CourseKeyAction::Collapse => {
            let row = rows[sel];
            if row.collapsible && row.expanded {
                old_sel
            } else {
                match row.parent_id {
                    Some(p) => match first_row_with_id(rows, p, 0) {
                        Some(i) => i,
                        None => old_sel,
                    },
                    None => old_sel,
                }
            }
        },
        _ => old_sel,
    }
}

/// `c` without any copy of `id`.
pub open spec fn without(c: Seq<Seq<char>>, id: Seq<char>) -> Seq<Seq<char>>
    decreases c.len(),
{
    if c.len() == 0 {
        Seq::empty()
    } else if c.last() == id {
        without(c.drop_last(), id)
    } else {
        without(c.drop_last(), id).push(c.last())
    }
}

/// `c` with `id` added unless it is already there.
pub open spec fn with_once(c: Seq<Seq<char>>, id: Seq<char>) -> Seq<Seq<char>> {
    if c.contains(id) {
        c
    } else {
        c.push(id)
    }
}

/// The collapsed node ids after `action`.
pub open spec fn collapsed_after(
    rows: Seq<RowView>,
    collapsed: Seq<Seq<char>>,
    old_sel: int,
    action: CourseKeyAction,
) -> Seq<Seq<char>> {
    let row = rows[clamped(old_sel, rows.len() as int)];
    match action {
        CourseKeyAction::Expand => if row.collapsible && !row.expanded {
            without(collapsed, row.id)
        } else {
            collapsed
        },
        CourseKeyAction::Collapse => if row.collapsible && row.expanded {
            with_once(collapsed, row.id)
        } else {
            collapsed
        },
        _ => collapsed,
    }
}

/// The text of the notice shown when the selected item has no link.
pub open spec fn no_link_text() -> Seq<char> {
    "No link available on this item."@
}

/// The command that opens or copies `url`, or the notice when there is none.
pub open spec fn is_link_command(c: AppCommand, action: LinkAction, url: Option<Seq<char>>) -> bool {
    match url {
        Some(u) => match action {
            LinkAction::Open => c matches AppCommand::OpenUrl(x) && x@ == u,
            LinkAction::Copy => c matches AppCommand::CopyToClipboard(x) && x@ == u,
        },
        None => c matches AppCommand::ShowToast(m) && m@ == no_link_text(),
    }
}

/// The command for a link of the selected item.
pub fn link_command(action: LinkAction, url: &Option<String>) -> (r: AppCommand)
    ensures
        is_link_command(r, action, opt_view(*url)),
{
    match url {
        Some(u) => match action {
            LinkAction::Open => AppCommand::OpenUrl(u.clone()),
            LinkAction::Copy => AppCommand::CopyToClipboard(u.clone()),
        },
        None => AppCommand::ShowToast("No link available on this item.".to_owned()),
    }
}

/// The `k`-th `:`-separated field of `s[start..]`, as `str::split(':')` yields it.
pub open spec fn colon_field(s: Seq<char>, start: int, k: nat) -> Option<Seq<char>>
    decreases k,
{
    match find_char(s, ':', start) {
        None => if k == 0 {
            Some(s.subrange(start, s.len() as int))
        } else {
            None
        },
        Some(i) => if k == 0 {
            Some(s.subrange(start, i))
        } else {
            colon_field(s, i + 1, (k - 1) as nat)
        },
    }
}

/// What `str::parse::<i64>` accepts: an optional sign, then at least one decimal digit,
/// with a value inside the range of `i64`.
pub open spec fn parse_i64(s: Seq<char>) -> Option<i64> {
    if s.len() == 0 || (s.len() == 1 && (s[0] == '+' || s[0] == '-')) {
        None
    } else {
        let neg = s[0] == '-';
        let body = if s[0] == '+' || s[0] == '-' { s.drop_first() } else { s };
        match digits_value(body, 10) {
            Some(v) => if neg {
                if v <= 0x8000_0000_0000_0000 {
                    Some((-v) as i64)
                } else {
                    None
                }
            } else if v <= i64::MAX {
                Some(v as i64)
            } else {
                None
            },
            None => None,
        }
    }
}

/// `str::parse::<i64>` from std, with the error turned into `None`.
#[verifier::external_body]
pub(crate) fn i64_parse(s: &str) -> (r: Option<i64>)
    ensures
        r == parse_i64(s@),
{
    s.parse::<i64>().ok()
}

/// The section and module ids written in a module row id `module:<section>:<module>`.
pub open spec fn module_row_ids(id: Seq<char>) -> Option<(i64, i64)> {
    let a = match colon_field(id, 0, 1) {
        Some(f) => parse_i64(f),
        None => None,
    };
    let b = match colon_field(id, 0, 2) {
        Some(f) => parse_i64(f),
        None => None,
    };
    match (a, b) {
        (Some(x), Some(y)) => Some((x, y)),
        _ => None,
    }
}

/// The first section at or after `from` with the given id.
pub open spec fn first_section_with_id(ss: Seq<CourseSection>, id: i64, from: int) -> Option<int>
    decreases ss.len() - from,
{
    if from < 0 || from >= ss.len() {
        None
    } else if ss[from].id == id {
        Some(from)
    } else {
        first_section_with_id(ss, id, from + 1)
    }
}

/// The first module at or after `from` with the given id.
pub open spec fn first_module_with_id(ms: Seq<CourseModule>, id: i64, from: int) -> Option<int>
    decreases ms.len() - from,
{
    if from < 0 || from >= ms.len() {
        None
    } else if ms[from].id == id {
        Some(from)
    } else {
        first_module_with_id(ms, id, from + 1)
    }
}

/// The assignment instance of the module `cmid` of the first section `section_id`.
pub open spec fn module_instance(ss: Seq<CourseSection>, section_id: i64, cmid: i64) -> Option<i64> {
    match first_section_with_id(ss, section_id, 0) {
        None => None,
        Some(i) => match first_module_with_id(ss[i].modules@, cmid, 0) {
            None => None,
            Some(j) => ss[i].modules@[j].instance,
        },
    }
}

/// The first description row at or after `from` whose parent is `parent`.
pub open spec fn first_description(rows: Seq<RowView>, parent: Seq<char>, from: int) -> Option<int>
    decreases rows.len() - from,
{
    if from < 0 || from >= rows.len() {
        None
    } else if rows[from].kind == CourseTreeNodeKind::ModuleDescription && rows[from].parent_id
        == Some(parent) {
        Some(from)
    } else {
        first_description(rows, parent, from + 1)
    }
}

/// The assignment dialog as it opens, still loading its details and its status.
pub open spec fn fresh_assignment_modal(
    m: AssignmentModalData,
    course_id: i64,
    assignment_id: i64,
    name: Seq<char>,
    course_name: Seq<char>,
    due_date: i64,
    description: Option<Seq<char>>,
    url: Option<Seq<char>>,
) -> bool {
    &&& m.course_id == course_id
    &&& m.assignment_id == assignment_id
    &&& m.assignment_name@ == name
    &&& m.course_name@ == course_name
    &&& m.due_date == due_date
    &&& opt_view(m.module_description) == description
    &&& opt_view(m.module_url) == url
    &&& m.status is None
    &&& m.status_loading
    &&& m.status_error is None
    &&& m.detail is None
    &&& m.detail_loading
    &&& m.detail_error is None
    &&& m.loading
    &&& m.error is None
}

/// The commands that load the details and the status of an assignment (none without a
/// signed-in site).
pub open spec fn assignment_load_commands(
    cmds: Seq<AppCommand>,
    config: Option<RuntimeConfig>,
    course_id: i64,
    assignment_id: i64,
) -> bool {
    match config {
        Some(c) => cmds == seq![
            AppCommand::LoadAssignmentDetail(c, course_id, assignment_id),
            AppCommand::LoadAssignmentStatus(c, assignment_id),
        ],
        None => cmds.len() == 0,
    }
}

/// The name of the course shown in a dialog: the full name, or the short one when blank.
pub open spec fn page_course_name(course: CoursePageData) -> Seq<char> {
    if course.course_full_name@.len() > 0 {
        course.course_full_name@
    } else {
        course.course_short_name@
    }
}

/// The assignment that the module row `sel` opens: its instance id, when the row id names
/// a module of the page that has one.
pub open spec fn row_assignment(course: CoursePageData, rows: Seq<RowView>, sel: int) -> Option<i64> {
    match module_row_ids(rows[sel].id) {
        None => None,
        Some(ids) => module_instance(course.sections@, ids.0, ids.1),
    }
}

/// The description text of the module row `sel`.
pub open spec fn row_description(rows: Seq<RowView>, sel: int) -> Option<Seq<char>> {
    match first_description(rows, rows[sel].id, 0) {
        Some(i) => Some(rows[i].text),
        None => None,
    }
}

/// The fields of a course page that keys never change.
pub open spec fn same_page_content(a: CoursePageData, b: CoursePageData) -> bool {
    &&& a.course_id == b.course_id
    &&& a.course_short_name == b.course_short_name
    &&& a.course_full_name == b.course_full_name
    &&& a.sections == b.sections
    &&& a.loading == b.loading
    &&& a.error == b.error
    &&& a.from_cache == b.from_cache
}

/// The row is a module of type `assign`.
pub open spec fn is_assign_row(row: RowView) -> bool {
    row.kind == CourseTreeNodeKind::Module && row.module_type == Some("assign"@)
}

proof fn lemma_section_rows_nonempty(index: int, s: CourseSection, c: Seq<Seq<char>>)
    ensures
        section_rows(index, s, c).len() >= 1,
{
}

proof fn lemma_sections_rows_nonempty(ss: Seq<CourseSection>, c: Seq<Seq<char>>)
    requires
        ss.len() > 0,
    ensures
        sections_rows(ss, c).len() >= 1,
{
    lemma_section_rows_nonempty(ss.len() - 1, ss.last(), c);
}

/// The tree of a page always has a row.
pub proof fn lemma_course_tree_nonempty(ss: Seq<CourseSection>, c: Seq<Seq<char>>)
    ensures
        course_tree(ss, c).len() >= 1,
{
    if ss.len() > 0 {
        lemma_sections_rows_nonempty(ss, c);
    }
}

fn remove_id(collapsed: &mut Vec<String>, id: &String)
    ensures
        strings_view(final(collapsed)@) == without(strings_view(old(collapsed)@), id@),
{
    let ghost src = strings_view(collapsed@);
    let idc = chars_of(id.as_str());
    let mut kept: Vec<String> = Vec::new();
    let mut i: usize = 0;
    while i < collapsed.len()
        invariant
            i <= collapsed@.len(),
            src == strings_view(collapsed@),
            idc@ == id@,
            strings_view(kept@) == without(src.take(i as int), id@),
        decreases collapsed.len() - i,
    {
        assert(src.take(i + 1).drop_last() =~= src.take(i as int));
        let item = collapsed[i].clone();
        if !chars_eq(&chars_of(item.as_str()), &idc) {
            kept.push(item);
            assert(strings_view(kept@) =~= without(src.take(i + 1), id@));
        }
        i += 1;
    }
    assert(src.take(src.len() as int) =~= src);
    *collapsed = kept;
}

fn insert_id(collapsed: &mut Vec<String>, id: &String)
    ensures
        strings_view(final(collapsed)@) == with_once(strings_view(old(collapsed)@), id@),
{
    if !contains_string(collapsed, id) {
        collapsed.push(id.clone());
        assert(strings_view(collapsed@) =~= strings_view(old(collapsed)@).push(id@));
    }
}

pub(crate) fn position_of_id(rows: &Vec<CourseTreeRow>, id: &String) -> (r: Option<usize>)
    ensures
        match r {
            Some(i) => first_row_with_id(rows_view(rows@), id@, 0) == Some(i as int),
            None => first_row_with_id(rows_view(rows@), id@, 0) is None,
        },
{
    let ghost rv = rows_view(rows@);
    let idc = chars_of(id.as_str());
    let mut i: usize = 0;
    while i < rows.len()
        invariant
            i <= rows@.len(),
            rv == rows_view(rows@),
            idc@ == id@,
            first_row_with_id(rv, id@, 0) == first_row_with_id(rv, id@, i as int),
        decreases rows.len() - i,
    {
        if chars_eq(&chars_of(rows[i].id.as_str()), &idc) {
            return Some(i);
        }
        i += 1;
    }
    None
}

fn colon_field_bounds(v: &Vec<char>, start: usize, k: usize) -> (r: Option<(usize, usize)>)
    requires
        start <= v@.len(),
    ensures
        match r {
            Some((a, b)) => a <= b <= v@.len() && colon_field(v@, start as int, k as nat) == Some(
                v@.subrange(a as int, b as int),
            ),
            None => colon_field(v@, start as int, k as nat) is None,
        },
    decreases k,
{
    proof {
        crate::text::lemma_find_char_bounds(v@, ':', start as int);
    }
    match find_char_in(v.as_slice(), ':', start) {
        None => if k == 0 {
            Some((start, v.len()))
        } else {
            None
        },
        Some(i) => {
            let n: usize = v.len();
            assert(i < n);
            if k == 0 {
                Some((start, i))
            } else {
                colon_field_bounds(v, i + 1, k - 1)
            }
        },
    }
}

fn parse_field(v: &Vec<char>, k: usize) -> (r: Option<i64>)
    ensures
        r == (match colon_field(v@, 0, k as nat) {
            Some(f) => parse_i64(f),
            None => None,
        }),
{
    match colon_field_bounds(v, 0, k) {
        None => None,
        Some((a, b)) => {
            let s = string_of_range(v.as_slice(), a, b);
            i64_parse(s.as_str())
        },
    }
}

fn find_module_instance(sections: &Vec<CourseSection>, section_id: i64, cmid: i64) -> (r: Option<i64>)
    ensures
        r == module_instance(sections@, section_id, cmid),
{
    let mut i: usize = 0;
    while i < sections.len()
        invariant
            i <= sections@.len(),
            first_section_with_id(sections@, section_id, 0) == first_section_with_id(
                sections@,
                section_id,
                i as int,
            ),
        decreases sections.len() - i,
    {
        if sections[i].id == section_id {
            let modules = &sections[i].modules;
            let mut j: usize = 0;
            while j < modules.len()
                invariant
                    i < sections@.len(),
                    sections@[i as int].id == section_id,
                    first_section_with_id(sections@, section_id, 0) == Some(i as int),
                    j <= modules@.len(),
                    *modules == sections@[i as int].modules,
                    first_module_with_id(modules@, cmid, 0) == first_module_with_id(modules@, cmid, j as int),
                decreases modules.len() - j,
            {
                if modules[j].id == cmid {
                    return modules[j].instance;
                }
                j += 1;
            }
            return None;
        }
        i += 1;
    }
    None
}

fn find_description(rows: &Vec<CourseTreeRow>, parent: &String) -> (r: Option<String>)
    ensures
        opt_view(r) == (match first_description(rows_view(rows@), parent@, 0) {
            Some(i) => Some(rows_view(rows@)[i].text),
            None => None,
        }),
{
    let ghost rv = rows_view(rows@);
    let pc = chars_of(parent.as_str());
    let mut i: usize = 0;
    while i < rows.len()
        invariant
            i <= rows@.len(),
            rv == rows_view(rows@),
            pc@ == parent@,
            first_description(rv, parent@, 0) == first_description(rv, parent@, i as int),
        decreases rows.len() - i,
    {
        let row = &rows[i];
        let is_desc = row.kind == CourseTreeNodeKind::ModuleDescription;
        let parent_matches = match &row.parent_id {
            Some(p) => chars_eq(&chars_of(p.as_str()), &pc),
            None => false,
        };
        if is_desc && parent_matches {
            return Some(row.text.clone());
        }
        i += 1;
    }
    None
}

/// Opens the assignment dialog for the module row `selected` when its id names a module
/// of the page with an assignment instance; returns the commands that load it.
fn open_modal_for_course_module(
    course: &CoursePageData,
    assignment_modal: &mut Option<AssignmentModalData>,
    config: &Option<RuntimeConfig>,
    rows: &Vec<CourseTreeRow>,
    selected: usize,
) -> (r: Vec<AppCommand>)
    requires
        selected < rows@.len(),
    ensures
        match row_assignment(*course, rows_view(rows@), selected as int) {
            Some(aid) => {
                &&& *final(assignment_modal) matches Some(m) && fresh_assignment_modal(
                    m,
                    course.course_id,
                    aid,
                    rows_view(rows@)[selected as int].text,
                    page_course_name(*course),
                    0,
                    row_description(rows_view(rows@), selected as int),
                    rows_view(rows@)[selected as int].link_url,
                )
                &&& assignment_load_commands(r@, *config, course.course_id, aid)
            },
            None => *final(assignment_modal) == *old(assignment_modal) && r@.len() == 0,
        },
{
    let row = &rows[selected];
    let course_id = course.course_id;
    let course_name = if !course.course_full_name.as_str().is_empty() {
        course.course_full_name.clone()
    } else {
        course.course_short_name.clone()
    };
    let idc = chars_of(row.id.as_str());
    let section_id = parse_field(&idc, 1);
    let cmid = parse_field(&idc, 2);
    let (section_id, cmid) = match (section_id, cmid) {
        (Some(a), Some(b)) => (a, b),
        _ => return Vec::new(),
    };
    let assign_id = match find_module_instance(&course.sections, section_id, cmid) {
        Some(v) => v,
        None => return Vec::new(),
    };
    let description = find_description(rows, &row.id);
    *assignment_modal = Some(AssignmentModalData {
        course_id,
        assignment_id: assign_id,
        assignment_name: row.text.clone(),
        course_name,
        due_date: 0,
        module_description: description,
        module_url: clone_opt(&row.link_url),
        status: None,
        status_loading: true,
        status_error: None,
        detail: None,
        detail_loading: true,
        detail_error: None,
        loading: true,
        error: None,
    });
    match config {
        Some(c) => vec![
            AppCommand::LoadAssignmentDetail(c.duplicate(), course_id, assign_id),
            AppCommand::LoadAssignmentStatus(c.duplicate(), assign_id),
        ],
        None => Vec::new(),
    }
}

/// What a key does on a course page: `oc`/`om` are the page and the assignment dialog
/// before, `nc`/`nm` after, and `r` the commands (`None` when the key is not a course-page key).
pub open spec fn course_key_post(
    oc: CoursePageData,
    nc: CoursePageData,
    om: Option<AssignmentModalData>,
    nm: Option<AssignmentModalData>,
    config: Option<RuntimeConfig>,
    key: KeyPress,
    r: Option<Seq<AppCommand>>,
) -> bool {
    let rows = course_tree(oc.sections@, strings_view(oc.collapsed@));
    let sel = clamped(oc.selected_row as int, rows.len() as int);
    match course_key_action(key) {
        None => r is None && nc == oc && nm == om,
        Some(action) => {
            &&& r matches Some(cmds)
            &&& same_page_content(nc, oc)
            &&& nc.selected_row == selection_after(
                rows,
                oc.selected_row as int,
                action,
            )
            &&& strings_view(nc.collapsed@) == collapsed_after(
                rows,
                strings_view(oc.collapsed@),
                oc.selected_row as int,
                action,
            )
            &&& match action {
                CourseKeyAction::OpenLink => cmds.len() == 1 && is_link_command(
                    cmds[0],
                    LinkAction::Open,
                    rows[sel].link_url,
                ) && nm == om,
                CourseKeyAction::CopyLink => cmds.len() == 1 && is_link_command(
                    cmds[0],
                    LinkAction::Copy,
                    rows[sel].link_url,
                ) && nm == om,
                CourseKeyAction::OpenAssignment => if is_assign_row(rows[sel]) {
                    match row_assignment(oc, rows, sel) {
                        Some(aid) => {
                            &&& nm matches Some(m)
                                && fresh_assignment_modal(
                                m,
                                oc.course_id,
                                aid,
                                rows[sel].text,
                                page_course_name(oc),
                                0,
                                row_description(rows, sel),
                                rows[sel].link_url,
                            )
                            &&& assignment_load_commands(
                                cmds,
                                config,
                                oc.course_id,
                                aid,
                            )
                        },
                        None => nm == om
                            && cmds.len() == 0,
                    }
                } else {
                    nm == om && cmds.len() == 0
                },
                _ => cmds.len() == 0 && nm == om,
            }
        },
    }
}

/// Handles a key on a course page: `None` when the key is not a course-page key (nothing
/// changes then); otherwise the commands to run, with the selection, the folded nodes or
/// the assignment dialog updated as the action asks.
pub fn handle_course_view_key(
    course: &mut CoursePageData,
    assignment_modal: &mut Option<AssignmentModalData>,
    config: &Option<RuntimeConfig>,
    key: KeyPress,
) -> (r: Option<Vec<AppCommand>>)
    requires
        old(course).sections@.len() < 0x7fff_ffff_ffff_ffff,
    ensures
        course_key_post(
            *old(course),
            *final(course),
            *old(assignment_modal),
            *final(assignment_modal),
            *config,
            key,
            match r {
                Some(v) => Some(v@),
                None => None,
            },
        ),
{
    let rows = build_course_tree_rows(course.sections.as_slice(), &course.collapsed);
    let ghost rv = rows_view(rows@);
    proof {
        lemma_course_tree_nonempty(course.sections@, strings_view(course.collapsed@));
    }
    let n = rows.len();
    let selected: usize = if course.selected_row < n - 1 {
        course.selected_row
    } else {
        n - 1
    };
    assert(rv[selected as int] == rows@[selected as int]@);
    let action = match course_key_action_of(key) {
        Some(a) => a,
        None => return None,
    };
    match action {
        CourseKeyAction::Up => {
            course.selected_row = if selected > 0 {
                selected - 1
            } else {
                0
            };
            Some(Vec::new())
        },
        CourseKeyAction::Down => {
            if selected + 1 < n {
                course.selected_row = selected + 1;
            }
            Some(Vec::new())
        },
        CourseKeyAction::Home => {
            course.selected_row = 0;
            Some(Vec::new())
        },
        CourseKeyAction::End => {
            course.selected_row = n - 1;
            Some(Vec::new())
        },
        CourseKeyAction::PageUp => {
            course.selected_row = if selected >= 10 {
                selected - 10
            } else {
                0
            };
            Some(Vec::new())
        },
        CourseKeyAction::PageDown => {
            course.selected_row = if selected < n - 1 && n - 1 - selected > 10 {
                selected + 10
            } else {
                n - 1
            };
            Some(Vec::new())
        },
        CourseKeyAction::Expand => {
            let row = &rows[selected];
            if row.collapsible && !row.expanded {
                remove_id(&mut course.collapsed, &row.id);
            }
            Some(Vec::new())
        },
        CourseKeyAction::Collapse => {
            let row = &rows[selected];
            if row.collapsible && row.expanded {
                insert_id(&mut course.collapsed, &row.id);
            } else {
                match &row.parent_id {
                    Some(p) => match position_of_id(&rows, p) {
                        Some(idx) => {
                            course.selected_row = idx;
                        },
                        None => {},
                    },
                    None => {},
                }
            }
            Some(Vec::new())
        },
        CourseKeyAction::OpenLink => Some(vec![link_command(LinkAction::Open, &rows[selected].link_url)]),
        CourseKeyAction::CopyLink => Some(vec![link_command(LinkAction::Copy, &rows[selected].link_url)]),
        CourseKeyAction::OpenAssignment => {
            let row = &rows[selected];
            let is_assign = row.kind == CourseTreeNodeKind::Module && match &row.module_type {
                Some(t) => chars_eq_str(&chars_of(t.as_str()), "assign"),
                None => false,
            };
            if is_assign {
                Some(open_modal_for_course_module(course, assignment_modal, config, &rows, selected))
            } else {
                Some(Vec::new())
            }
        },
    }
}

/// Folding a node and unfolding it again gives back the folded set exactly, and unfolding
/// a folded node and folding it again keeps the same set of folded nodes.
pub proof fn law_fold_unfold(collapsed: Seq<Seq<char>>, id: Seq<char>)
    ensures
        !collapsed.contains(id) ==> without(with_once(collapsed, id), id) == collapsed,
        forall|x: Seq<char>| #[trigger] with_once(without(collapsed, id), id).contains(x)
            == collapsed.contains(x) || (x == id && !collapsed.contains(id)),
{
    lemma_without_contains(collapsed, id);
    lemma_without_contains(collapsed.push(id), id);
    if !collapsed.contains(id) {
        lemma_without_absent(collapsed, id);
        assert(collapsed.push(id).drop_last() =~= collapsed);
    }
    assert forall|x: Seq<char>| #[trigger] with_once(without(collapsed, id), id).contains(x)
        == collapsed.contains(x) || (x == id && !collapsed.contains(id)) by {
        lemma_without_contains(collapsed, id);
        if x == id {
            assert(without(collapsed, id).push(id)[without(collapsed, id).len() as int] == id);
        } else {
            if without(collapsed, id).contains(x) {
                let k = choose|k: int| 0 <= k < without(collapsed, id).len() && without(collapsed, id)[k] == x;
                assert(without(collapsed, id).push(id)[k] == x);
            }
        }
    }
}

proof fn lemma_without_contains(c: Seq<Seq<char>>, id: Seq<char>)
    ensures
        forall|x: Seq<char>| #[trigger] without(c, id).contains(x) == (c.contains(x) && x != id),
    decreases c.len(),
{
    if c.len() > 0 {
        lemma_without_contains(c.drop_last(), id);
        assert forall|x: Seq<char>| #[trigger] without(c, id).contains(x) == (c.contains(x) && x != id) by {
            let w = without(c.drop_last(), id);
            if c.contains(x) && x != id {
                let k = choose|k: int| 0 <= k < c.len() && c[k] == x;
                if k < c.len() - 1 {
                    assert(c.drop_last()[k] == x);
                    assert(c.drop_last().contains(x));
                    assert(w.contains(x));
                    if c.last() != id {
                        let j = choose|j: int| 0 <= j < w.len() && w[j] == x;
                        assert(w.push(c.last())[j] == x);
                    }
                } else {
                    assert(w.push(c.last())[w.len() as int] == x);
                }
            }
            if without(c, id).contains(x) {
                let k = choose|k: int| 0 <= k < without(c, id).len() && without(c, id)[k] == x;
                if c.last() != id && k == w.len() {
                    assert(c[c.len() - 1] == x);
                } else {
                    assert(w[k] == x);
                    assert(w.contains(x));
                    let j = choose|j: int| 0 <= j < c.drop_last().len() && c.drop_last()[j] == x;
                    assert(c[j] == x);
                }
            }
        }
    }
}

proof fn lemma_without_absent(c: Seq<Seq<char>>, id: Seq<char>)
    requires
        !c.contains(id),
    ensures
        without(c, id) == c,
    decreases c.len(),
{
    if c.len() > 0 {
        assert(c.last() == c[c.len() - 1]);
        if c.drop_last().contains(id) {
            let j = choose|j: int| 0 <= j < c.drop_last().len() && c.drop_last()[j] == id;
            assert(c[j] == id);
        }
        lemma_without_absent(c.drop_last(), id);
        assert(c.drop_last().push(c.last()) =~= c);
    }
}

} // verus!
