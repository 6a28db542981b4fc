//! Plugin manifests, their validation, and the messages exchanged with plugins.
use vstd::prelude::*;
use crate::text::{
    chars_of, string_of, push_str, push_char,
    ascii_lower, lower_ascii_chars, chars_eq_str, trim, is_blank,
};

verus! {

/// A char allowed in plugin, action and secret identifiers.
pub open spec fn is_id_char(c: char) -> bool {
    ('a' <= c && c <= 'z') || ('0' <= c && c <= '9') || c == '-' || c == '_'
}

/// Whether `s` is a non-empty identifier of at most `max` allowed chars.
pub open spec fn is_valid_id(s: Seq<char>, max: nat) -> bool {
    0 < s.len() <= max && forall|i: int| 0 <= i < s.len() ==> is_id_char(#[trigger] s[i])
}

fn id_ok(v: &[char], max: usize) -> (r: bool)
    ensures
        r == is_valid_id(v@, max as nat),
{
    if v.len() == 0 || v.len() > max {
        return false;
    }
    let mut i: usize = 0;
    while i < v.len()
        invariant
            i <= v@.len(),
            forall|j: int| 0 <= j < i ==> is_id_char(#[trigger] v@[j]),
        decreases v.len() - i,
    {
        let c = v[i];
        if !(('a' <= c && c <= 'z') || ('0' <= c && c <= '9') || c == '-' || c == '_') {
            return false;
        }
        i += 1;
    }
    true
}

/// `prefix + s + suffix` as a string.
fn quoted_message(prefix: &str, s: &str, suffix: &str) -> (r: String)
    ensures
        r@ == prefix@ + s@ + suffix@,
{
    let mut out = String::new();
    push_str(&mut out, prefix);
    push_str(&mut out, s);
    push_str(&mut out, suffix);
    assert(out@ =~= prefix@ + s@ + suffix@);
    out
}

/// A plugin id: 1 to 96 chars from `a-z`, `0-9`, `-`, `_`.
pub fn validate_plugin_id(id: &str) -> (r: Result<(), String>)
    ensures
        is_valid_id(id@, 96) <==> r is Ok,
        r matches Err(e) ==> e@ == "invalid plugin id '"@ + id@ + "'"@,
{
    let v = chars_of(id);
    if id_ok(&v, 96) {
        Ok(())
    } else {
        Err(quoted_message("invalid plugin id '", id, "'"))
    }
}

/// A quiz action id (also used for result kinds): 1 to 64 chars from `a-z`, `0-9`, `-`, `_`.
pub fn validate_action_id(id: &str) -> (r: Result<(), String>)
    ensures
        is_valid_id(id@, 64) <==> r is Ok,
        r matches Err(e) ==> e@ == "invalid quiz action id '"@ + id@ + "'"@,
{
    let v = chars_of(id);
    if id_ok(&v, 64) {
        Ok(())
    } else {
        Err(quoted_message("invalid quiz action id '", id, "'"))
    }
}

/// The key under which a plugin secret is stored: `plugin:<id>:<name>`.
pub fn plugin_secret_key(plugin_id: &str, secret_name: &str) -> (r: Result<String, String>)
    ensures
        !is_valid_id(plugin_id@, 96) ==> (r matches Err(e) && e@ == "invalid plugin id '"@
            + plugin_id@ + "'"@),
        is_valid_id(plugin_id@, 96) && !is_valid_id(secret_name@, 64) ==> (r matches Err(e) && e@
            == "invalid plugin secret name '"@ + secret_name@ + "'"@),
        is_valid_id(plugin_id@, 96) && is_valid_id(secret_name@, 64) ==> (r matches Ok(k) && k@
            == "plugin:"@ + plugin_id@ + ":"@ + secret_name@),
{
    validate_plugin_id(plugin_id)?;
    let v = chars_of(secret_name);
    if !id_ok(&v, 64) {
        return Err(quoted_message("invalid plugin secret name '", secret_name, "'"));
    }
    let mut out = quoted_message("plugin:", plugin_id, ":");
    push_str(&mut out, secret_name);
    assert(out@ =~= "plugin:"@ + plugin_id@ + ":"@ + secret_name@);
    Ok(out)
}

/// The chars of `raw` kept in an id: lower-case letters, digits, `-`, `_`, and upper-case
/// letters turned to lower case.
pub open spec fn sanitized_id(raw: Seq<char>) -> Seq<char>
    decreases raw.len(),
{
    if raw.len() == 0 {
        Seq::empty()
    } else {
        let rest = sanitized_id(raw.drop_last());
        let c = raw.last();
        if is_id_char(c) {
            rest.push(c)
        } else if 'A' <= c && c <= 'Z' {
            rest.push(crate::text::ascii_lower_char(c))
        } else {
            rest
        }
    }
}

/// Turns a directory name into an id by keeping only id chars.
pub fn sanitize_fallback_id(raw: &str) -> (r: String)
    ensures
        r@ == sanitized_id(raw@),
        is_valid_id(r@, r@.len()) || r@.len() == 0,
{
    let v = chars_of(raw);
    let mut out = String::new();
    let mut i: usize = 0;
    while i < v.len()
        invariant
            i <= v@.len(),
            out@ == sanitized_id(v@.take(i as int)),
            forall|j: int| 0 <= j < out@.len() ==> is_id_char(#[trigger] out@[j]),
        decreases v.len() - i,
    {
        assert(v@.take(i + 1).drop_last() =~= v@.take(i as int));
        let c = v[i];
        if ('a' <= c && c <= 'z') || ('0' <= c && c <= '9') || c == '-' || c == '_' {
            push_char(&mut out, c);
        } else if 'A' <= c && c <= 'Z' {
            push_char(&mut out, crate::text::lower_ascii_char(c));
        }
        i += 1;
    }
    assert(v@.take(v@.len() as int) =~= v@);
    out
}

/// Whether a `..` component occurs in a `/`-separated path.
pub open spec fn has_parent_component(s: Seq<char>) -> bool {
    exists|i: int|
        0 <= i && i + 2 <= s.len() && (i == 0 || s[i - 1] == '/') && #[trigger] s[i] == '.' && s[i
            + 1] == '.' && (i + 2 == s.len() || s[i + 2] == '/')
}

/// Whether the path holds a backslash, a colon or a NUL char.
pub open spec fn has_forbidden_char(s: Seq<char>) -> bool {
    exists|i: int| 0 <= i < s.len() && (#[trigger] s[i] == '\\' || s[i] == ':' || s[i] == '\0')
}

/// The reasons an entry path is refused, in the order they are checked.
pub open spec fn entry_error(entry: Seq<char>) -> Option<Seq<char>> {
    if trim(entry).len() == 0 || (entry.len() > 0 && entry[0] == '/') || has_forbidden_char(entry) {
        Some("plugin entry must be a relative path"@)
    } else if has_parent_component(entry) {
        Some("plugin entry cannot escape the plugin directory"@)
    } else {
        None
    }
}

/// Checks that a plugin entry is a relative path (as a Unix path reads) that stays inside
/// the plugin directory: not blank, not absolute, no `\`, `:` or NUL, no `..` component.
pub fn validate_relative_entry(entry: &str) -> (r: Result<(), String>)
    ensures
        match entry_error(entry@) {
            Some(msg) => r matches Err(e) && e@ == msg,
            None => r is Ok,
        },
{
    let v = chars_of(entry);
    let mut bad = is_blank(entry) || (v.len() > 0 && v[0] == '/');
    let mut i: usize = 0;
    while i < v.len()
        invariant
            i <= v@.len(),
            bad == (trim(v@).len() == 0 || (v@.len() > 0 && v@[0] == '/') || exists|j: int|
                0 <= j < i && (#[trigger] v@[j] == '\\' || v@[j] == ':' || v@[j] == '\0')),
        decreases v.len() - i,
    {
        if v[i] == '\\' || v[i] == ':' || v[i] == '\0' {
            bad = true;
        }
        i += 1;
    }
    if bad {
        return Err(string_of(&chars_of("plugin entry must be a relative path")));
    }
    let mut k: usize = 0;
    while k < v.len() && v.len() - k >= 2
        invariant
            v@ == entry@,
            !(trim(v@).len() == 0 || (v@.len() > 0 && v@[0] == '/') || has_forbidden_char(v@)),
            forall|j: int|
                0 <= j < k && j + 2 <= v@.len() ==> !((j == 0 || v@[j - 1] == '/') && #[trigger] v@[j]
                    == '.' && v@[j + 1] == '.' && (j + 2 == v@.len() || v@[j + 2] == '/')),
        decreases v.len() - k,
    {
        if (k == 0 || v[k - 1] == '/') && v[k] == '.' && v[k + 1] == '.' && (k + 2 == v.len() || v[k
            + 2] == '/') {
            assert(has_parent_component(v@)) by {
                assert(v@[k as int] == '.');
            }
            return Err(string_of(&chars_of("plugin entry cannot escape the plugin directory")));
        }
        k += 1;
    }
    Ok(())
}

/// The extension of the file name of a path, as `std::path::Path::extension` gives it.
pub uninterp spec fn path_extension_name(path: Seq<char>) -> Option<Seq<char>>;

/// `std::path::Path::new(path).extension()` from std, as text (a path made from a `&str`
/// always converts back). Which part of the path that is is std's rule and is only named.
#[verifier::external_body]
fn path_extension(path: &str) -> (r: Option<String>)
    ensures
        crate::models::opt_view(r) == path_extension_name(path@),
{
    std::path::Path::new(path).extension().and_then(|e| e.to_str()).map(|e| e.to_owned())
}

/// Whether an entry's extension is `js` in any ASCII case.
pub open spec fn is_js_entry(entry: Seq<char>) -> bool {
    match path_extension_name(entry) {
        Some(e) => ascii_lower(e) == "js"@,
        None => false,
    }
}

fn is_js_entry_exec(v: &[char]) -> (r: bool)
    ensures
        r == is_js_entry(v@),
{
    let entry = string_of(v);
    match path_extension(entry.as_str()) {
        Some(ext) => {
            let lower = lower_ascii_chars(&chars_of(ext.as_str()));
            chars_eq_str(&lower, "js")
        },
        None => false,
    }
}

/// A path joined onto a directory, as `std::path::Path::join` gives it (as text).
pub uninterp spec fn joined_path(dir: Seq<char>, relative: Seq<char>) -> Seq<char>;

/// `std::path::Path::new(dir).join(relative)` from std, as text (`to_string_lossy`, which
/// changes nothing for paths made from `&str`). How std joins is only named.
#[verifier::external_body]
fn path_join(dir: &str, relative: &str) -> (r: String)
    ensures
        r@ == joined_path(dir@, relative@),
{
    std::path::Path::new(dir).join(relative).to_string_lossy().to_string()
}

/// The directory that holds the profile, the cache and the plugins: a non-blank custom
/// directory as given, else `.config/tui-moodle` under the home directory; none when
/// neither is known.
pub fn config_dir_from(custom: Option<&str>, home: Option<&str>) -> (r: Option<String>)
    ensures
        match custom {
            Some(c) if trim(c@).len() != 0 => r matches Some(p) && p@ == c@,
            _ => match home {
                Some(h) => r matches Some(p) && p@ == joined_path(joined_path(h@, ".config"@), "tui-moodle"@),
                None => r is None,
            },
        },
{
    if let Some(c) = custom {
        if !is_blank(c) {
            return Some(c.to_owned());
        }
    }
    match home {
        Some(h) => {
            let dot_config = path_join(h, ".config");
            Some(path_join(dot_config.as_str(), "tui-moodle"))
        },
        None => None,
    }
}

/// Where plugins are installed: `plugins` inside the configuration directory.
pub fn plugins_dir_in(config_dir: &str) -> (r: String)
    ensures
        r@ == joined_path(config_dir@, "plugins"@),
{
    path_join(config_dir, "plugins")
}

impl PluginManifest {
    /// Where the plugin's entry lives inside `plugin_dir`, once the entry is checked to stay
    /// inside it.
    pub fn entry_path(&self, plugin_dir: &str) -> (r: Result<String, String>)
        ensures
            match entry_error(self.entry@) {
                Some(msg) => r matches Err(e) && e@ == msg,
                None => r matches Ok(p) && p@ == joined_path(plugin_dir@, self.entry@),
            },
    {
        validate_relative_entry(self.entry.as_str())?;
        Ok(path_join(plugin_dir, self.entry.as_str()))
    }
}

/// How a plugin entry is started.
#[derive(Debug, Clone, PartialEq, Eq)]
pub struct PluginCommand {
    pub program: String,
    pub args: Vec<String>,
}

/// JavaScript entries run through `node`; anything else is executed directly.
pub fn plugin_command(entry: &str) -> (r: PluginCommand)
    ensures
        is_js_entry(entry@) ==> r.program@ == "node"@ && r.args@.len() == 1 && r.args@[0]@
            == entry@,
        !is_js_entry(entry@) ==> r.program@ == entry@ && r.args@.len() == 0,
{
    let v = chars_of(entry);
    if is_js_entry_exec(&v) {
        let mut args: Vec<String> = Vec::new();
        args.push(string_of(&v));
        PluginCommand { program: string_of(&chars_of("node")), args }
    } else {
        PluginCommand { program: string_of(&v), args: Vec::new() }
    }
}

/// What a plugin may do.
#[derive(Debug, Clone, Copy, PartialEq, Eq, Structural)]
pub enum PluginPermission {
    QuizReadCurrentQuestion,
    QuizWriteAnswers,
    Network,
    NetworkGemini,
    SecretsReadPlugin,
    UiShowPanel,
}

/// A quiz action that a plugin contributes.
#[derive(Debug, Clone, PartialEq, Eq)]
pub struct QuizActionContribution {
    pub id: String,
    pub title: String,
    pub description: Option<String>,
    pub result_kind: Option<String>,
    pub default_key: Option<String>,
}

/// Everything a plugin contributes to the host.
#[derive(Debug, Clone, Default, PartialEq, Eq)]
pub struct PluginContributions {
    pub quiz_actions: Vec<QuizActionContribution>,
}

/// One property of a plugin's settings schema, as the host reads it: the string `title`,
/// `format` and `default`, the boolean `secret`, and the string members of `enum`.
#[derive(Debug, Clone, PartialEq, Eq)]
pub struct SettingProperty {
    pub name: String,
    pub title: Option<String>,
    pub format: Option<String>,
    pub secret: Option<bool>,
    pub default: Option<String>,
    pub options: Vec<String>,
}

/// The `plugin.json` of an installed plugin.
#[derive(Debug, Clone, PartialEq, Eq)]
pub struct PluginManifest {
    pub id: String,
    pub name: String,
    pub version: String,
    pub entry: String,
    pub permissions: Vec<PluginPermission>,
    pub settings_schema: Option<Vec<SettingProperty>>,
    pub contributes: PluginContributions,
}

/// The first problem among the quiz actions from index `i` on.
pub open spec fn actions_error(actions: Seq<QuizActionContribution>, i: int) -> Option<Seq<char>>
    decreases actions.len() - i,
{
    if i < 0 || i >= actions.len() {
        None
    } else {
        let a = actions[i];
        if !is_valid_id(a.id@, 64) {
            Some("invalid quiz action id '"@ + a.id@ + "'"@)
        } else if trim(a.title@).len() == 0 {
            Some("quiz action '"@ + a.id@ + "' requires a title"@)
        } else if a.result_kind is Some && !is_valid_id(a.result_kind->0@, 64) {
            Some("invalid quiz action id '"@ + a.result_kind->0@ + "'"@)
        } else {
            actions_error(actions, i + 1)
        }
    }
}

/// The first problem of a manifest, checked in order: id, name, version, entry, actions.
pub open spec fn manifest_error(m: PluginManifest) -> Option<Seq<char>> {
    if !is_valid_id(m.id@, 96) {
        Some("invalid plugin id '"@ + m.id@ + "'"@)
    } else if trim(m.name@).len() == 0 {
        Some("plugin name is required"@)
    } else if trim(m.version@).len() == 0 {
        Some("plugin version is required"@)
    } else if entry_error(m.entry@) is Some {
        entry_error(m.entry@)
    } else {
        actions_error(m.contributes.quiz_actions@, 0)
    }
}

impl PluginManifest {
    /// Checks the manifest and reports its first problem.
    pub fn validate(&self) -> (r: Result<(), String>)
        ensures
            match manifest_error(*self) {
                Some(msg) => r matches Err(e) && e@ == msg,
                None => r is Ok,
            },
    {
        validate_plugin_id(self.id.as_str())?;
        if is_blank(self.name.as_str()) {
            return Err(string_of(&chars_of("plugin name is required")));
        }
        if is_blank(self.version.as_str()) {
            return Err(string_of(&chars_of("plugin version is required")));
        }
        validate_relative_entry(self.entry.as_str())?;
        let actions = &self.contributes.quiz_actions;
        let mut i: usize = 0;
        while i < actions.len()
            invariant
                i <= actions@.len(),
                actions@ == self.contributes.quiz_actions@,
                manifest_error(*self) == actions_error(actions@, i as int),
            decreases actions.len() - i,
        {
            let action = &actions[i];
            validate_action_id(action.id.as_str())?;
            if is_blank(action.title.as_str()) {
                return Err(quoted_message("quiz action '", action.id.as_str(), "' requires a title"));
            }
            match &action.result_kind {
                Some(kind) => {
                    validate_action_id(kind.as_str())?;
                },
                None => {},
            }
            i += 1;
        }
        Ok(())
    }
}

/// A plugin found in the plugin directory.
#[derive(Debug, Clone, PartialEq, Eq)]
pub struct InstalledPlugin {
    pub manifest: PluginManifest,
    pub directory: String,
    pub enabled: bool,
    pub load_error: Option<String>,
}

/// All installed plugins, ordered by id.
#[derive(Debug, Clone, Default, PartialEq, Eq)]
pub struct PluginRegistry {
    pub plugins: Vec<InstalledPlugin>,
}

/// The manifest that stands for a plugin directory whose own manifest cannot be read: its id
/// is the directory name kept to id chars, or `invalid-plugin` when nothing remains.
pub fn invalid_manifest_for_path(dir_name: Option<&str>) -> (r: PluginManifest)
    ensures
        match dir_name {
            Some(n) => sanitized_id(n@).len() > 0 ==> r.id@ == sanitized_id(n@),
            None => true,
        },
        (match dir_name {
            Some(n) => sanitized_id(n@).len() == 0,
            None => true,
        }) ==> r.id@ == "invalid-plugin"@,
        r.name@ == "Invalid plugin"@,
        r.version@ == "0.0.0"@,
        r.entry@ == "plugin"@,
        r.permissions@.len() == 0,
        r.settings_schema is None,
        r.contributes.quiz_actions@.len() == 0,
{
    let fallback = match dir_name {
        Some(n) => {
            let id = sanitize_fallback_id(n);
            if id.as_str().is_empty() {
                string_of(&chars_of("invalid-plugin"))
            } else {
                id
            }
        },
        None => string_of(&chars_of("invalid-plugin")),
    };
    PluginManifest {
        id: fallback,
        name: string_of(&chars_of("Invalid plugin")),
        version: string_of(&chars_of("0.0.0")),
        entry: string_of(&chars_of("plugin")),
        permissions: Vec::new(),
        settings_schema: None,
        contributes: PluginContributions { quiz_actions: Vec::new() },
    }
}

/// Runs plugins with a time limit.
#[derive(Debug, Clone)]
pub struct PluginRuntime {
    pub timeout_ms: u64,
}

impl PluginRuntime {
    /// A runtime whose plugins get 20 seconds.
    pub fn new() -> (r: Self)
        ensures
            r.timeout_ms == 20_000,
    {
        PluginRuntime { timeout_ms: 20_000 }
    }
}

/// How sure a plugin is of its answer.
#[derive(Debug, Clone, Copy, PartialEq, Eq, Structural)]
pub enum StudyHelpConfidence {
    Low,
    Medium,
    High,
}

/// The answer a plugin gives for one control.
#[derive(Debug, Clone, PartialEq, Eq)]
pub struct ControlAnswer {
    pub control_name: String,
    pub selected_values: Vec<String>,
    pub text_value: Option<String>,
}

/// A plugin's answers for the current question.
#[derive(Debug, Clone, PartialEq, Eq)]
pub struct AiFillResponse {
    pub answers: Vec<ControlAnswer>,
    pub explanation: String,
    pub confidence: StudyHelpConfidence,
}

/// Study help that a plugin returns.
#[derive(Debug, Clone, PartialEq, Eq)]
pub struct StudyHelpResponse {
    pub summary: String,
    pub hints: Vec<String>,
    pub confidence: StudyHelpConfidence,
    pub limitations: Vec<String>,
}

/// An option of a control, as shown to a plugin.
#[derive(Debug, Clone, PartialEq, Eq)]
pub struct QuizOptionContext {
    pub label: String,
    pub value: String,
    pub name: Option<String>,
}

/// A control of the current question, as shown to a plugin.
#[derive(Debug, Clone, PartialEq, Eq)]
pub struct QuizControlContext {
    pub name: String,
    pub kind: String,
    pub options: Vec<QuizOptionContext>,
    pub current_text: Option<String>,
}

/// The current question, as shown to a plugin.
#[derive(Debug, Clone, PartialEq, Eq)]
pub struct QuizQuestionContext {
    pub quiz_id: i64,
    pub attempt_id: i64,
    pub quiz_name: String,
    pub question_index: usize,
    pub question_number: Option<String>,
    pub question_text: String,
    pub controls: Vec<QuizControlContext>,
}

/// Events the host sends to plugins.
#[derive(Debug, Clone, PartialEq, Eq)]
pub enum PluginEvent {
    QuizCurrentQuestion(QuizQuestionContext),
}

/// Actions a plugin asks the host to perform.
#[derive(Debug, Clone, PartialEq, Eq)]
pub enum HostAction {
    ShowToast { message: String },
    CopyToClipboard { text: String },
    OpenUrl { url: String },
    ShowPanel { title: String, markdown: String },
}

/// The ids of the installed plugins, each once.
pub fn installed_plugin_ids(registry: &PluginRegistry) -> (r: Vec<String>)
    ensures
        crate::course_tree::strings_view(r@).no_duplicates(),
        forall|id: Seq<char>| crate::course_tree::strings_view(r@).contains(id) <==> crate::plugin_settings::registers(registry.plugins@, id),
{
    let ghost ps = registry.plugins@;
    let mut out: Vec<String> = Vec::new();
    let mut i: usize = 0;
    while i < registry.plugins.len()
        invariant
            i <= ps.len(),
            ps == registry.plugins@,
            crate::course_tree::strings_view(out@).no_duplicates(),
            forall|id: Seq<char>| crate::course_tree::strings_view(out@).contains(id) <==> crate::plugin_settings::registers(ps.take(i as int), id),
        decreases registry.plugins.len() - i,
    {
        let ghost before = crate::course_tree::strings_view(out@);
        let ghost done = ps.take(i as int);
        let ghost next = ps.take(i + 1);
        let id = &registry.plugins[i].manifest.id;
        assert(next[i as int].manifest.id@ == id@);
        assert forall|q: Seq<char>| crate::plugin_settings::registers(next, q) <==> crate::plugin_settings::registers(done, q) || q == id@ by {
            if crate::plugin_settings::registers(next, q) {
                let k = choose|k: int| 0 <= k < next.len() && #[trigger] next[k].manifest.id@ == q;
                if k < i {
                    assert(done[k] == next[k]);
                }
            }
            if crate::plugin_settings::registers(done, q) {
                let k = choose|k: int| 0 <= k < done.len() && #[trigger] done[k].manifest.id@ == q;
                assert(next[k] == done[k]);
            }
        }
        if !crate::course_tree::contains_string(&out, id) {
            out.push(id.clone());
            assert(crate::course_tree::strings_view(out@) =~= before.push(id@));
        }
        assert forall|q: Seq<char>| crate::course_tree::strings_view(out@).contains(q) <==> crate::plugin_settings::registers(next, q) by {
            if crate::course_tree::strings_view(out@).contains(q) && !before.contains(q) {
                let j = choose|j: int| 0 <= j < crate::course_tree::strings_view(out@).len()
                    && crate::course_tree::strings_view(out@)[j] == q;
                assert(j == before.len());
            }
            if before.contains(q) {
                let j = choose|j: int| 0 <= j < before.len() && before[j] == q;
                assert(crate::course_tree::strings_view(out@)[j] == q);
            }
            if q == id@ && !before.contains(q) {
                assert(crate::course_tree::strings_view(out@)[before.len() as int] == q);
            }
        }
        i += 1;
    }
    assert(ps.take(ps.len() as int) =~= ps);
    out
}

} // verus!
