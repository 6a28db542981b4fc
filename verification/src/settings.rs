//! Rows of the settings dialog, setting keys, and display-width truncation.
use vstd::prelude::*;
use crate::text::{chars_of, push_char, push_str};
use crate::main_keys::MainState;
use crate::scroll::{capped, horizontal_max, horizontal_max_for_width, wider};
use crate::settings_rows::{
    config_matches, config_rows_spec, config_rows_view, filtered_config_rows, filtered_keybind_rows,
    keybind_matches, keybind_rows_spec, keybind_rows_view, settings_query, ConfigRowView, KeybindView,
};
use crate::state::SettingsPane;
use unicode_width::UnicodeWidthStr;

verus! {

/// A line of the key-binding pane.
#[derive(Debug, Clone, PartialEq, Eq)]
pub struct SettingsKeybindRow {
    pub section: String,
    pub keys: String,
    pub action: String,
    pub source: String,
    pub conflict: bool,
}

/// What a line of the configuration pane edits.
#[derive(Debug, Clone, PartialEq, Eq)]
pub enum SettingsConfigField {
    InstallPlugin,
    ReloadPlugins,
    TogglePlugin { plugin_id: String },
    UninstallPlugin { plugin_id: String },
    PluginSetting {
        plugin_id: String,
        setting_name: String,
        label: String,
        secret: bool,
        options: Vec<String>,
    },
}

/// A line of the configuration pane.
#[derive(Debug, Clone, PartialEq, Eq)]
pub struct SettingsConfigRow {
    pub group_id: String,
    pub group_name: String,
    pub label: String,
    pub value: String,
    pub field: SettingsConfigField,
}

/// `<plugin_id>:<name>`, the key under which a plugin setting is tracked.
pub open spec fn setting_key_spec(plugin_id: Seq<char>, name: Seq<char>) -> Seq<char> {
    plugin_id + ":"@ + name
}

/// The key under which a plugin setting is tracked.
pub fn setting_key(plugin_id: &str, name: &str) -> (r: String)
    ensures
        r@ == setting_key_spec(plugin_id@, name@),
{
    let mut s = String::new();
    push_str(&mut s, plugin_id);
    push_str(&mut s, ":");
    push_str(&mut s, name);
    s
}

/// The display width in terminal columns that `unicode_width` gives a string.
pub uninterp spec fn str_width(s: Seq<char>) -> usize;

/// `UnicodeWidthStr::width` of the `unicode-width` crate: the number of terminal columns
/// the string takes. Its value comes from that crate's Unicode tables and is only named here.
#[verifier::external_body]
pub(crate) fn display_width(s: &str) -> (r: usize)
    ensures
        r == str_width(s@),
{
    UnicodeWidthStr::width(s)
}

/// The width of a single character, measured as a one-character string.
pub open spec fn char_width(c: char) -> usize {
    str_width(seq![c])
}

/// How many leading characters of `s[i..]` fit before the ellipsis, starting from `width`
/// columns already used: characters are taken while they and the ellipsis stay within
/// `max_width` columns.
pub open spec fn kept_chars(s: Seq<char>, max_width: int, i: int, width: int) -> int
    decreases s.len() - i,
{
    if i < 0 || i >= s.len() {
        i
    } else if width + char_width(s[i]) + 1 > max_width {
        i
    } else {
        kept_chars(s, max_width, i + 1, width + char_width(s[i]))
    }
}

/// The text when it fits in `max_width` columns; otherwise the longest prefix that fits
/// together with a trailing `…` (just `…` for one column, nothing for zero).
pub open spec fn truncated(s: Seq<char>, max_width: int) -> Seq<char> {
    if str_width(s) <= max_width {
        s
    } else if max_width == 0 {
        Seq::empty()
    } else if max_width == 1 {
        "\u{2026}"@
    } else {
        s.take(kept_chars(s, max_width, 0, 0)) + "\u{2026}"@
    }
}

proof fn lemma_kept_chars_bounds(s: Seq<char>, max_width: int, i: int, width: int)
    requires
        0 <= i <= s.len(),
    ensures
        i <= kept_chars(s, max_width, i, width) <= s.len(),
    decreases s.len() - i,
{
    if i < s.len() && width + char_width(s[i]) + 1 <= max_width {
        lemma_kept_chars_bounds(s, max_width, i + 1, width + char_width(s[i]));
    }
}

/// Cuts `value` to `max_width` display columns, marking a cut with `…`.
pub fn truncate_with_ellipsis(value: &str, max_width: usize) -> (r: String)
    ensures
        r@ == truncated(value@, max_width as int),
{
    if display_width(value) <= max_width {
        return value.to_owned();
    }
    if max_width == 0 {
        return String::new();
    }
    if max_width == 1 {
        return "\u{2026}".to_owned();
    }
    let v = chars_of(value);
    let mut out = String::new();
    let mut width: usize = 0;
    let mut i: usize = 0;
    proof {
        lemma_kept_chars_bounds(v@, max_width as int, 0, 0);
    }
    while i < v.len()
        invariant
            v@ == value@,
            max_width >= 2,
            i <= v@.len(),
            width < max_width,
            out@ == v@.take(i as int),
            kept_chars(v@, max_width as int, 0, 0) == kept_chars(v@, max_width as int, i as int, width as int),
        ensures
            i <= v@.len(),
            out@ == v@.take(i as int),
            kept_chars(v@, max_width as int, 0, 0) == i,
        decreases v.len() - i,
    {
        let mut one = String::new();
        push_char(&mut one, v[i]);
        assert(one@ =~= seq![v@[i as int]]);
        let w = display_width(one.as_str());
        if w >= max_width - width {
            break;
        }
        push_char(&mut out, v[i]);
        assert(out@ =~= v@.take(i + 1));
        width = width + w;
        i += 1;
    }
    push_str(&mut out, "\u{2026}");
    out
}


/// `s` padded with spaces to `width` characters, as `format!("{:<width$}", s)` writes it.
pub open spec fn padded(s: Seq<char>, width: int) -> Seq<char> {
    if s.len() >= width {
        s
    } else {
        s + Seq::new((width - s.len()) as nat, |_i: int| ' ')
    }
}

/// `s` followed by spaces up to `width` characters.
pub fn pad_right(s: &str, width: usize) -> (r: String)
    ensures
        r@ == padded(s@, width as int),
{
    let n: usize = chars_of(s).len();
    let mut out = s.to_owned();
    let mut k: usize = n;
    while k < width
        invariant
            n == s@.len(),
            n <= k,
            k <= n || k <= width,
            out@ == s@ + Seq::new((k - n) as nat, |_i: int| ' '),
        decreases width - k,
    {
        let ghost before = out@;
        push_char(&mut out, ' ');
        k += 1;
        assert(out@ =~= s@ + Seq::new((k - n) as nat, |_i: int| ' '));
    }
    if n >= width {
        assert(out@ =~= s@);
    }
    out
}

/// The action a key-binding row shows, marked when another binding takes the same key.
pub open spec fn shown_action(row: KeybindView) -> Seq<char> {
    if row.conflict {
        row.action + " (conflict)"@
    } else {
        row.action
    }
}

/// The columns a key-binding row takes: twelve for its keys, a space, the action, and
/// whatever of the (cut) keys runs past those twelve.
pub open spec fn keybind_row_width_spec(keys: Seq<char>, action: Seq<char>) -> int {
    let key_width = str_width(truncated(keys, 12));
    capped(13 + str_width(action) + (if key_width >= 12 { key_width - 12 } else { 0 }))
}

/// The columns a configuration row takes: a space, its label padded to 22 characters, and
/// its value.
pub open spec fn config_row_width_spec(label: Seq<char>, value: Seq<char>) -> int {
    capped(str_width(" "@ + padded(label, 22)) + str_width(value))
}

/// The widest line among key-binding rows: each row's section title and the row itself.
pub open spec fn keybind_widest(rows: Seq<KeybindView>) -> int
    decreases rows.len(),
{
    if rows.len() == 0 {
        0
    } else {
        let row = rows.last();
        wider(
            keybind_widest(rows.drop_last()),
            wider(str_width(row.section) as int, keybind_row_width_spec(row.keys, shown_action(row))),
        )
    }
}

/// The widest line among configuration rows: each row's group name and the row itself.
pub open spec fn config_widest(rows: Seq<ConfigRowView>) -> int
    decreases rows.len(),
{
    if rows.len() == 0 {
        0
    } else {
        let row = rows.last();
        wider(
            config_widest(rows.drop_last()),
            wider(str_width(row.group_name) as int, config_row_width_spec(row.label, row.value)),
        )
    }
}

fn keybind_row_width(keys: &str, action: &str) -> (r: usize)
    ensures
        r == keybind_row_width_spec(keys@, action@),
{
    let cut = truncate_with_ellipsis(keys, 12);
    let over = display_width(cut.as_str()).saturating_sub(12);
    13usize.saturating_add(display_width(action)).saturating_add(over)
}

fn config_row_width(label: &str, value: &str) -> (r: usize)
    ensures
        r == config_row_width_spec(label@, value@),
{
    let mut head = String::new();
    push_str(&mut head, " ");
    let label_cell = pad_right(label, 22);
    push_str(&mut head, label_cell.as_str());
    proof {
        reveal_strlit(" ");
    }
    assert(head@ =~= " "@ + padded(label@, 22));
    display_width(head.as_str()).saturating_add(display_width(value))
}

/// How far a settings pane `pane_width` columns wide can scroll sideways over the rows the
/// settings filter shows.
pub fn max_horizontal_scroll(main: &MainState, pane: SettingsPane, pane_width: u16) -> (r: u16)
    requires
        main.plugin_settings.well_formed(),
    ensures
        r == horizontal_max(
            match pane {
                SettingsPane::Keybinds => keybind_widest(
                    keybind_rows_spec(*main).filter(|v: KeybindView| keybind_matches(v, settings_query(*main))),
                ),
                SettingsPane::Config => config_widest(
                    config_rows_spec(*main).filter(|v: ConfigRowView| config_matches(v, settings_query(*main))),
                ),
            },
            pane_width as int,
        ),
{
    let mut best: usize = 0;
    match pane {
        SettingsPane::Keybinds => {
            let rows = filtered_keybind_rows(main);
            let ghost vs = keybind_rows_view(rows@);
            let mut i: usize = 0;
            while i < rows.len()
                invariant
                    i <= rows@.len(),
                    vs == keybind_rows_view(rows@),
                    best == keybind_widest(vs.take(i as int)),
                decreases rows.len() - i,
            {
                let row = &rows[i];
                let mut action = row.action.clone();
                if row.conflict {
                    push_str(&mut action, " (conflict)");
                }
                assert(action@ == shown_action(vs[i as int]));
                let section_width = display_width(row.section.as_str());
                let row_width = keybind_row_width(row.keys.as_str(), action.as_str());
                let w = if section_width >= row_width { section_width } else { row_width };
                if w > best {
                    best = w;
                }
                assert(vs.take(i + 1).drop_last() =~= vs.take(i as int));
                i += 1;
            }
            assert(vs.take(vs.len() as int) =~= vs);
        },
        SettingsPane::Config => {
            let rows = filtered_config_rows(main);
            let ghost vs = config_rows_view(rows@);
            let mut i: usize = 0;
            while i < rows.len()
                invariant
                    i <= rows@.len(),
                    vs == config_rows_view(rows@),
                    best == config_widest(vs.take(i as int)),
                decreases rows.len() - i,
            {
                let row = &rows[i];
                let group_width = display_width(row.group_name.as_str());
                let row_width = config_row_width(row.label.as_str(), row.value.as_str());
                let w = if group_width >= row_width { group_width } else { row_width };
                if w > best {
                    best = w;
                }
                assert(vs.take(i + 1).drop_last() =~= vs.take(i as int));
                i += 1;
            }
            assert(vs.take(vs.len() as int) =~= vs);
        },
    }
    horizontal_max_for_width(best, pane_width)
}

} // verus!
