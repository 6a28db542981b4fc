//! Keyboard shortcuts: which key triggers which action, and how they are listed in the help.
use vstd::prelude::*;
use crate::text::{chars_eq_str, chars_of};

verus! {

/// The key of a key press, as the terminal reports it.
#[derive(Debug, Clone, Copy, PartialEq, Eq, Structural)]
pub enum KeyCode {
    Char(char),
    Enter,
    Esc,
    Tab,
    BackTab,
    Backspace,
    Delete,
    Left,
    Right,
    Up,
    Down,
    Home,
    End,
    PageUp,
    PageDown,
    Other,
}

/// A key press with the modifier keys that were held.
#[derive(Debug, Clone, Copy, PartialEq, Eq, Structural)]
pub struct KeyPress {
    pub code: KeyCode,
    pub ctrl: bool,
    pub alt: bool,
    pub shift: bool,
}

impl KeyPress {
    /// A press of `code` with no modifier held.
    pub fn plain(code: KeyCode) -> (r: KeyPress)
        ensures
            r == (KeyPress { code, ctrl: false, alt: false, shift: false }),
    {
        KeyPress { code, ctrl: false, alt: false, shift: false }
    }
}

/// The tab whose shortcuts are listed.
#[derive(Debug, Clone, Copy, PartialEq, Eq, Structural)]
pub enum TabId {
    Dashboard,
}

/// One line of the shortcut help.
#[derive(Debug, Clone)]
pub struct ShortcutDisplay {
    pub id: &'static str,
    pub keys: &'static str,
    pub action: &'static str,
}

/// A titled group of shortcut help lines.
#[derive(Debug, Clone)]
pub struct ShortcutSection {
    pub title: &'static str,
    pub items: Vec<ShortcutDisplay>,
}

/// The key is the character `c`.
pub open spec fn is_char(key: KeyPress, c: char) -> bool {
    key.code == KeyCode::Char(c)
}

/// The key is the character `c` with neither Control nor Alt held.
pub open spec fn is_plain_char(key: KeyPress, c: char) -> bool {
    is_char(key, c) && !key.ctrl && !key.alt
}

/// The key is the character `c` with Shift held.
pub open spec fn is_shifted_char(key: KeyPress, c: char) -> bool {
    is_char(key, c) && key.shift
}

/// Whether `key` triggers the shortcut named `id`; unknown names never trigger.
pub open spec fn shortcut_pressed(id: Seq<char>, key: KeyPress) -> bool {
    if id == "settings-open"@ {
        is_plain_char(key, '?')
    } else if id == "settings-close"@ {
        key.code == KeyCode::Esc || is_plain_char(key, '?')
    } else if id == "quit"@ {
        is_plain_char(key, 'q')
    } else if id == "logout"@ {
        is_plain_char(key, 'l')
    } else if id == "dashboard-refresh"@ {
        is_plain_char(key, 'r')
    } else if id == "dashboard-open-finder"@ {
        is_plain_char(key, '/')
    } else if id == "dashboard-open-content-finder"@ {
        is_plain_char(key, 'f')
    } else if id == "dashboard-open-assignment-modal"@ {
        key.code == KeyCode::Enter
    } else if id == "dashboard-copy-link"@ {
        is_plain_char(key, 'c')
    } else if id == "dashboard-open-link"@ {
        is_char(key, 'C') || is_shifted_char(key, 'c')
    } else if id == "dashboard-back"@ {
        key.code == KeyCode::Esc
    } else if id == "dashboard-up"@ {
        key.code == KeyCode::Up
    } else if id == "dashboard-down"@ {
        key.code == KeyCode::Down
    } else if id == "dashboard-expand"@ {
        key.code == KeyCode::Right
    } else if id == "dashboard-collapse"@ {
        key.code == KeyCode::Left
    } else if id == "dashboard-page-up"@ {
        key.code == KeyCode::PageUp
    } else if id == "dashboard-page-down"@ {
        key.code == KeyCode::PageDown
    } else if id == "dashboard-home"@ {
        key.code == KeyCode::Home
    } else if id == "dashboard-end"@ {
        key.code == KeyCode::End
    } else if id == "course-finder-submit"@ {
        key.code == KeyCode::Enter
    } else if id == "course-finder-cancel"@ {
        key.code == KeyCode::Esc
    } else if id == "course-content-finder-submit"@ {
        key.code == KeyCode::Enter
    } else if id == "course-content-finder-target-prev"@ {
        key.code == KeyCode::Left
    } else if id == "course-content-finder-target-next"@ {
        key.code == KeyCode::Right
    } else if id == "course-content-finder-cancel"@ {
        key.code == KeyCode::Esc
    } else if id == "assignment-modal-close"@ {
        key.code == KeyCode::Esc
    } else {
        false
    }
}

fn char_key(key: KeyPress, expected: char) -> (r: bool)
    ensures
        r == is_char(key, expected),
{
    match key.code {
        KeyCode::Char(value) => value == expected,
        _ => false,
    }
}

fn plain_char(key: KeyPress, expected: char) -> (r: bool)
    ensures
        r == is_plain_char(key, expected),
{
    char_key(key, expected) && !key.ctrl && !key.alt
}

fn shifted_char(key: KeyPress, expected: char) -> (r: bool)
    ensures
        r == is_shifted_char(key, expected),
{
    char_key(key, expected) && key.shift
}

fn code_is(key: KeyPress, code: KeyCode) -> (r: bool)
    ensures
        r == (key.code == code),
{
    key.code == code
}

/// Whether `key` triggers the shortcut named `id`.
pub fn is_shortcut_pressed(id: &str, key: KeyPress) -> (r: bool)
    ensures
        r == shortcut_pressed(id@, key),
{
    let v = chars_of(id);
    if chars_eq_str(&v, "settings-open") {
        plain_char(key, '?')
    } else if chars_eq_str(&v, "settings-close") {
        code_is(key, KeyCode::Esc) || plain_char(key, '?')
    } else if chars_eq_str(&v, "quit") {
        plain_char(key, 'q')
    } else if chars_eq_str(&v, "logout") {
        plain_char(key, 'l')
    } else if chars_eq_str(&v, "dashboard-refresh") {
        plain_char(key, 'r')
    } else if chars_eq_str(&v, "dashboard-open-finder") {
        plain_char(key, '/')
    } else if chars_eq_str(&v, "dashboard-open-content-finder") {
        plain_char(key, 'f')
    } else if chars_eq_str(&v, "dashboard-open-assignment-modal") {
        code_is(key, KeyCode::Enter)
    } else if chars_eq_str(&v, "dashboard-copy-link") {
        plain_char(key, 'c')
    } else if chars_eq_str(&v, "dashboard-open-link") {
        char_key(key, 'C') || shifted_char(key, 'c')
    } else if chars_eq_str(&v, "dashboard-back") {
        code_is(key, KeyCode::Esc)
    } else if chars_eq_str(&v, "dashboard-up") {
        code_is(key, KeyCode::Up)
    } else if chars_eq_str(&v, "dashboard-down") {
        code_is(key, KeyCode::Down)
    } else if chars_eq_str(&v, "dashboard-expand") {
        code_is(key, KeyCode::Right)
    } else if chars_eq_str(&v, "dashboard-collapse") {
        code_is(key, KeyCode::Left)
    } else if chars_eq_str(&v, "dashboard-page-up") {
        code_is(key, KeyCode::PageUp)
    } else if chars_eq_str(&v, "dashboard-page-down") {
        code_is(key, KeyCode::PageDown)
    } else if chars_eq_str(&v, "dashboard-home") {
        code_is(key, KeyCode::Home)
    } else if chars_eq_str(&v, "dashboard-end") {
        code_is(key, KeyCode::End)
    } else if chars_eq_str(&v, "course-finder-submit") {
        code_is(key, KeyCode::Enter)
    } else if chars_eq_str(&v, "course-finder-cancel") {
        code_is(key, KeyCode::Esc)
    } else if chars_eq_str(&v, "course-content-finder-submit") {
        code_is(key, KeyCode::Enter)
    } else if chars_eq_str(&v, "course-content-finder-target-prev") {
        code_is(key, KeyCode::Left)
    } else if chars_eq_str(&v, "course-content-finder-target-next") {
        code_is(key, KeyCode::Right)
    } else if chars_eq_str(&v, "course-content-finder-cancel") {
        code_is(key, KeyCode::Esc)
    } else if chars_eq_str(&v, "assignment-modal-close") {
        code_is(key, KeyCode::Esc)
    } else {
        false
    }
}

/// The keys shown in the help for the shortcut named `id`.
pub open spec fn shortcut_keys(id: Seq<char>) -> Seq<char> {
    if id == "settings-open"@ {
        "?"@
    } else if id == "settings-close"@ {
        "Esc or ?"@
    } else if id == "quit"@ {
        "q"@
    } else if id == "logout"@ {
        "l"@
    } else if id == "dashboard-refresh"@ {
        "r"@
    } else if id == "dashboard-open-finder"@ {
        "/"@
    } else if id == "dashboard-open-content-finder"@ {
        "f"@
    } else if id == "dashboard-open-assignment-modal"@ {
        "Enter"@
    } else if id == "dashboard-copy-link"@ {
        "c"@
    } else if id == "dashboard-open-link"@ {
        "Shift+C"@
    } else if id == "dashboard-back"@ {
        "Esc"@
    } else if id == "dashboard-up"@ {
        "Up"@
    } else if id == "dashboard-down"@ {
        "Down"@
    } else if id == "dashboard-expand"@ {
        "Right"@
    } else if id == "dashboard-collapse"@ {
        "Left"@
    } else if id == "dashboard-page-up"@ {
        "PageUp"@
    } else if id == "dashboard-page-down"@ {
        "PageDown"@
    } else if id == "dashboard-home"@ {
        "Home"@
    } else if id == "dashboard-end"@ {
        "End"@
    } else if id == "course-finder-submit"@ {
        "Enter"@
    } else if id == "course-finder-cancel"@ {
        "Esc"@
    } else if id == "course-content-finder-submit"@ {
        "Enter"@
    } else if id == "course-content-finder-target-prev"@ {
        "Left"@
    } else if id == "course-content-finder-target-next"@ {
        "Right"@
    } else if id == "course-content-finder-cancel"@ {
        "Esc"@
    } else if id == "assignment-modal-close"@ {
        "Esc"@
    } else {
        Seq::empty()
    }
}

/// The action text shown in the help for the shortcut named `id`.
pub open spec fn shortcut_action(id: Seq<char>) -> Seq<char> {
    if id == "settings-open"@ {
        "Open settings/help"@
    } else if id == "settings-close"@ {
        "Close settings/help"@
    } else if id == "quit"@ {
        "Quit app"@
    } else if id == "logout"@ {
        "Logout and clear saved credentials"@
    } else if id == "dashboard-refresh"@ {
        "Refresh dashboard or active course page"@
    } else if id == "dashboard-open-finder"@ {
        "Open course finder"@
    } else if id == "dashboard-open-content-finder"@ {
        "Open course content finder"@
    } else if id == "dashboard-open-assignment-modal"@ {
        "Open selected assignment details"@
    } else if id == "dashboard-copy-link"@ {
        "Copy selected link to clipboard"@
    } else if id == "dashboard-open-link"@ {
        "Open selected link in browser"@
    } else if id == "dashboard-back"@ {
        "Back to dashboard"@
    } else if id == "dashboard-up"@ {
        "Scroll up"@
    } else if id == "dashboard-down"@ {
        "Scroll down"@
    } else if id == "dashboard-expand"@ {
        "Expand selected node or move to first child"@
    } else if id == "dashboard-collapse"@ {
        "Collapse selected node or move to parent"@
    } else if id == "dashboard-page-up"@ {
        "Jump up by one page"@
    } else if id == "dashboard-page-down"@ {
        "Jump down by one page"@
    } else if id == "dashboard-home"@ {
        "Jump to top"@
    } else if id == "dashboard-end"@ {
        "Jump to bottom"@
    } else if id == "course-finder-submit"@ {
        "Open highlighted course"@
    } else if id == "course-finder-cancel"@ {
        "Close course finder"@
    } else if id == "course-content-finder-submit"@ {
        "Jump to highlighted content"@
    } else if id == "course-content-finder-target-prev"@ {
        "Target previous content type"@
    } else if id == "course-content-finder-target-next"@ {
        "Target next content type"@
    } else if id == "course-content-finder-cancel"@ {
        "Close content finder"@
    } else if id == "assignment-modal-close"@ {
        "Close assignment details modal"@
    } else {
        Seq::empty()
    }
}

/// A help line is the named shortcut with its label.
pub open spec fn display_is(d: ShortcutDisplay, id: Seq<char>) -> bool {
    &&& d.id@ == id
    &&& d.keys@ == shortcut_keys(id)
    &&& d.action@ == shortcut_action(id)
}

fn d(id: &'static str, keys: &'static str, action: &'static str) -> (r: ShortcutDisplay)
    ensures
        r.id == id,
        r.keys == keys,
        r.action == action,
{
    ShortcutDisplay { id, keys, action }
}

#[verifier::rlimit(60)]
fn shortcut_display(id: &'static str) -> (r: ShortcutDisplay)
    ensures
        display_is(r, id@),
{
    let v = chars_of(id);
    if chars_eq_str(&v, "settings-open") {
        {
            let r = d(id, "?", "Open settings/help");
            assert(r.keys@ == shortcut_keys(id@));
            r
        }
    } else if chars_eq_str(&v, "settings-close") {
        {
            let r = d(id, "Esc or ?", "Close settings/help");
            assert(r.keys@ == shortcut_keys(id@));
            r
        }
    } else if chars_eq_str(&v, "quit") {
        {
            let r = d(id, "q", "Quit app");
            assert(r.keys@ == shortcut_keys(id@));
            r
        }
    } else if chars_eq_str(&v, "logout") {
        {
            let r = d(id, "l", "Logout and clear saved credentials");
            assert(r.keys@ == shortcut_keys(id@));
            r
        }
    } else if chars_eq_str(&v, "dashboard-refresh") {
        {
            let r = d(id, "r", "Refresh dashboard or active course page");
            assert(r.keys@ == shortcut_keys(id@));
            r
        }
    } else if chars_eq_str(&v, "dashboard-open-finder") {
        {
            let r = d(id, "/", "Open course finder");
            assert(r.keys@ == shortcut_keys(id@));
            r
        }
    } else if chars_eq_str(&v, "dashboard-open-content-finder") {
        {
            let r = d(id, "f", "Open course content finder");
            assert(r.keys@ == shortcut_keys(id@));
            r
        }
    } else if chars_eq_str(&v, "dashboard-open-assignment-modal") {
        {
            let r = d(id, "Enter", "Open selected assignment details");
            assert(r.keys@ == shortcut_keys(id@));
            r
        }
    } else if chars_eq_str(&v, "dashboard-copy-link") {
        {
            let r = d(id, "c", "Copy selected link to clipboard");
            assert(r.keys@ == shortcut_keys(id@));
            r
        }
    } else if chars_eq_str(&v, "dashboard-open-link") {
        {
            let r = d(id, "Shift+C", "Open selected link in browser");
            assert(r.keys@ == shortcut_keys(id@));
            r
        }
    } else if chars_eq_str(&v, "dashboard-back") {
        {
            let r = d(id, "Esc", "Back to dashboard");
            assert(r.keys@ == shortcut_keys(id@));
            r
        }
    } else if chars_eq_str(&v, "dashboard-up") {
        {
            let r = d(id, "Up", "Scroll up");
            assert(r.keys@ == shortcut_keys(id@));
            r
        }
    } else if chars_eq_str(&v, "dashboard-down") {
        {
            let r = d(id, "Down", "Scroll down");
            assert(r.keys@ == shortcut_keys(id@));
            r
        }
    } else if chars_eq_str(&v, "dashboard-expand") {
        {
            let r = d(id, "Right", "Expand selected node or move to first child");
            assert(r.keys@ == shortcut_keys(id@));
            r
        }
    } else if chars_eq_str(&v, "dashboard-collapse") {
        {
            let r = d(id, "Left", "Collapse selected node or move to parent");
            assert(r.keys@ == shortcut_keys(id@));
            r
        }
    } else if chars_eq_str(&v, "dashboard-page-up") {
        {
            let r = d(id, "PageUp", "Jump up by one page");
            assert(r.keys@ == shortcut_keys(id@));
            r
        }
    } else if chars_eq_str(&v, "dashboard-page-down") {
        {
            let r = d(id, "PageDown", "Jump down by one page");
            assert(r.keys@ == shortcut_keys(id@));
            r
        }
    } else if chars_eq_str(&v, "dashboard-home") {
        {
            let r = d(id, "Home", "Jump to top");
            assert(r.keys@ == shortcut_keys(id@));
            r
        }
    } else if chars_eq_str(&v, "dashboard-end") {
        {
            let r = d(id, "End", "Jump to bottom");
            assert(r.keys@ == shortcut_keys(id@));
            r
        }
    } else if chars_eq_str(&v, "course-finder-submit") {
        {
            let r = d(id, "Enter", "Open highlighted course");
            assert(r.keys@ == shortcut_keys(id@));
            r
        }
    } else if chars_eq_str(&v, "course-finder-cancel") {
        {
            let r = d(id, "Esc", "Close course finder");
            assert(r.keys@ == shortcut_keys(id@));
            r
        }
    } else if chars_eq_str(&v, "course-content-finder-submit") {
        {
            let r = d(id, "Enter", "Jump to highlighted content");
            assert(r.keys@ == shortcut_keys(id@));
            r
        }
    } else if chars_eq_str(&v, "course-content-finder-target-prev") {
        {
            let r = d(id, "Left", "Target previous content type");
            assert(r.keys@ == shortcut_keys(id@));
            r
        }
    } else if chars_eq_str(&v, "course-content-finder-target-next") {
        {
            let r = d(id, "Right", "Target next content type");
            assert(r.keys@ == shortcut_keys(id@));
            r
        }
    } else if chars_eq_str(&v, "course-content-finder-cancel") {
        {
            let r = d(id, "Esc", "Close content finder");
            assert(r.keys@ == shortcut_keys(id@));
            r
        }
    } else if chars_eq_str(&v, "assignment-modal-close") {
        {
            let r = d(id, "Esc", "Close assignment details modal");
            assert(r.keys@ == shortcut_keys(id@));
            r
        }
    } else {
        let empty: &'static str = "";
        proof {
            reveal_strlit("");
        }
        assert(shortcut_keys(id@) == Seq::<char>::empty());
        assert(shortcut_action(id@) == Seq::<char>::empty());
        let r = d(id, empty, empty);
        assert(r.keys@ == shortcut_keys(id@));
        assert(r.action@ == shortcut_action(id@));
        assert(display_is(r, id@));
        r
    }
}

/// The help lines for the shortcuts named in `ids`, in that order.
pub fn pick(ids: &[&'static str]) -> (r: Vec<ShortcutDisplay>)
    ensures
        r@.len() == ids@.len(),
        forall|i: int| 0 <= i < ids@.len() ==> display_is(#[trigger] r@[i], ids@[i]@),
{
    let mut out: Vec<ShortcutDisplay> = Vec::new();
    let mut i: usize = 0;
    while i < ids.len()
        invariant
            i <= ids@.len(),
            out@.len() == i,
            forall|k: int| 0 <= k < i ==> display_is(#[trigger] out@[k], ids@[k]@),
        decreases ids@.len() - i,
    {
        out.push(shortcut_display(ids[i]));
        i += 1;
    }
    out
}

/// The titles of the help sections and the shortcut names each lists.
pub open spec fn shortcut_sections_spec() -> Seq<(Seq<char>, Seq<Seq<char>>)> {
    seq![
        ("Global"@, seq!["settings-open"@, "dashboard-refresh"@, "logout"@, "quit"@]),
        ("Settings Modal"@, seq!["settings-close"@]),
        ("Dashboard / Course Page"@, seq![
            "dashboard-open-finder"@,
            "dashboard-open-content-finder"@,
            "dashboard-open-assignment-modal"@,
            "dashboard-copy-link"@,
            "dashboard-open-link"@,
            "dashboard-back"@,
            "dashboard-up"@,
            "dashboard-down"@,
            "dashboard-expand"@,
            "dashboard-collapse"@,
            "dashboard-page-up"@,
            "dashboard-page-down"@,
            "dashboard-home"@,
            "dashboard-end"@,
        ]),
        ("Course Finder"@, seq!["course-finder-submit"@, "course-finder-cancel"@]),
        ("Course Content Finder"@, seq![
            "course-content-finder-submit"@,
            "course-content-finder-target-prev"@,
            "course-content-finder-target-next"@,
            "course-content-finder-cancel"@,
        ]),
        ("Assignment Modal"@, seq![
            "dashboard-copy-link"@,
            "dashboard-open-link"@,
            "assignment-modal-close"@,
        ]),
    ]
}

/// A help section lists exactly the named shortcuts under the given title.
pub open spec fn section_is(s: ShortcutSection, spec: (Seq<char>, Seq<Seq<char>>)) -> bool {
    &&& s.title@ == spec.0
    &&& s.items@.len() == spec.1.len()
    &&& forall|k: int| 0 <= k < spec.1.len() ==> display_is(#[trigger] s.items@[k], spec.1[k])
}

fn section(title: &'static str, ids: &[&'static str]) -> (r: ShortcutSection)
    ensures
        r.title == title,
        r.items@.len() == ids@.len(),
        forall|i: int| 0 <= i < ids@.len() ==> display_is(#[trigger] r.items@[i], ids@[i]@),
{
    ShortcutSection { title, items: pick(ids) }
}

/// The shortcut help, section by section.
pub fn get_shortcut_sections(active_tab: TabId) -> (r: Vec<ShortcutSection>)
    ensures
        r@.len() == shortcut_sections_spec().len(),
        forall|i: int| 0 <= i < r@.len() ==> section_is(#[trigger] r@[i], shortcut_sections_spec()[i]),
{
    let ids0: [&'static str; 4] = ["settings-open", "dashboard-refresh", "logout", "quit"];
    let ids1: [&'static str; 1] = ["settings-close"];
    let ids2: [&'static str; 14] = [
        "dashboard-open-finder",
        "dashboard-open-content-finder",
        "dashboard-open-assignment-modal",
        "dashboard-copy-link",
        "dashboard-open-link",
        "dashboard-back",
        "dashboard-up",
        "dashboard-down",
        "dashboard-expand",
        "dashboard-collapse",
        "dashboard-page-up",
        "dashboard-page-down",
        "dashboard-home",
        "dashboard-end",
    ];
    let ids3: [&'static str; 2] = ["course-finder-submit", "course-finder-cancel"];
    let ids4: [&'static str; 4] = [
        "course-content-finder-submit",
        "course-content-finder-target-prev",
        "course-content-finder-target-next",
        "course-content-finder-cancel",
    ];
    let ids5: [&'static str; 3] = ["dashboard-copy-link", "dashboard-open-link", "assignment-modal-close"];
    let s0 = section("Global", &ids0);
    let s1 = section("Settings Modal", &ids1);
    let s2 = section("Dashboard / Course Page", &ids2);
    let s3 = section("Course Finder", &ids3);
    let s4 = section("Course Content Finder", &ids4);
    let s5 = section("Assignment Modal", &ids5);
    let r = vec![s0, s1, s2, s3, s4, s5];
    let ghost spec = shortcut_sections_spec();
    assert(section_is(r@[0], spec[0]));
    assert(section_is(r@[1], spec[1]));
    assert(section_is(r@[2], spec[2]));
    assert(section_is(r@[3], spec[3]));
    assert(section_is(r@[4], spec[4]));
    assert(section_is(r@[5], spec[5]));
    r
}

/// The number of lines of the shortcut help: a title and a blank line per section, and
/// one line per shortcut.
pub open spec fn help_lines(s: Seq<(Seq<char>, Seq<Seq<char>>)>) -> int
    decreases s.len(),
{
    if s.len() == 0 {
        0
    } else {
        help_lines(s.drop_last()) + 2 + s.last().1.len()
    }
}

/// The number of lines of the shortcut help.
pub fn settings_total_lines() -> (r: u16)
    ensures
        r == help_lines(shortcut_sections_spec()),
{
    let sections = get_shortcut_sections(TabId::Dashboard);
    let ghost spec = shortcut_sections_spec();
    assert(help_lines(spec) == 40) by {
        reveal_with_fuel(help_lines, 7);
        assert(spec.take(0) =~= Seq::empty());
    }
    let mut count: u16 = 0;
    let mut i: usize = 0;
    while i < sections.len()
        invariant
            i <= sections@.len(),
            sections@.len() == spec.len(),
            spec == shortcut_sections_spec(),
            help_lines(spec) == 40,
            forall|k: int| 0 <= k < sections@.len() ==> section_is(#[trigger] sections@[k], spec[k]),
            count == help_lines(spec.take(i as int)),
            count <= 40,
        decreases sections@.len() - i,
    {
        assert(spec.take(i + 1).drop_last() =~= spec.take(i as int));
        assert(section_is(sections@[i as int], spec[i as int]));
        proof {
            lemma_help_lines_prefix(spec, i as int + 1);
        }
        count = count + 2 + sections[i].items.len() as u16;
        i += 1;
    }
    assert(spec.take(spec.len() as int) =~= spec);
    count
}

proof fn lemma_help_lines_prefix(s: Seq<(Seq<char>, Seq<Seq<char>>)>, n: int)
    requires
        0 <= n <= s.len(),
    ensures
        help_lines(s.take(n)) <= help_lines(s),
    decreases s.len() - n,
{
    if n < s.len() {
        lemma_help_lines_prefix(s, n + 1);
        assert(s.take(n + 1).drop_last() =~= s.take(n));
    } else {
        assert(s.take(n) =~= s);
    }
}

} // verus!
