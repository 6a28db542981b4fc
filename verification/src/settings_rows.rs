//! The rows of the settings dialog: key bindings (the built-in shortcuts and the keys that
//! plugins ask for) and configuration (the plugin manager and each plugin's settings).
use vstd::prelude::*;
use crate::course_tree::{contains_string, strings_view};
use crate::main_keys::MainState;
use crate::models::opt_view;
use crate::plugins::{InstalledPlugin, PluginRegistry, QuizActionContribution, SettingProperty};
use crate::quiz_html::pairs_view;
use crate::settings::{setting_key, setting_key_spec, SettingsConfigField, SettingsConfigRow, SettingsKeybindRow};
use crate::shortcuts::{get_shortcut_sections, shortcut_action, shortcut_keys, shortcut_sections_spec, TabId};
use crate::text::{chars_eq_str, chars_lt, chars_of, contains_chars, contains_seq, lowercase, push_char, push_str, seq_lt, to_lowercase, trim, trim_str, is_blank};

verus! {

// ---------------------------------------------------------------------------------------
// Settings schemas

/// A settings property as plain values.
pub struct PropView {
    pub name: Seq<char>,
    pub title: Option<Seq<char>>,
    pub format: Option<Seq<char>>,
    pub secret: Option<bool>,
    pub default: Option<Seq<char>>,
    pub options: Seq<Seq<char>>,
}

impl View for SettingProperty {
    type V = PropView;

    open spec fn view(&self) -> PropView {
        PropView {
            name: self.name@,
            title: opt_view(self.title),
            format: opt_view(self.format),
            secret: self.secret,
            default: opt_view(self.default),
            options: strings_view(self.options@),
        }
    }
}

/// Views of properties.
pub open spec fn props_view(s: Seq<SettingProperty>) -> Seq<PropView> {
    s.map_values(|p: SettingProperty| p@)
}

/// Property `a` comes before property `b` by name.
pub open spec fn name_before(a: PropView, b: PropView) -> bool {
    seq_lt(a.name, b.name)
}

/// Properties ordered by name, ties kept in their order.
pub open spec fn sorted_by_name(s: Seq<PropView>) -> bool {
    forall|i: int, j: int| 0 <= i < j < s.len() ==> !name_before(#[trigger] s[j], #[trigger] s[i])
}

/// Where `x` goes in a list ordered by name: before the first property whose name is larger.
pub open spec fn insert_position(s: Seq<PropView>, x: PropView, from: int) -> int
    decreases s.len() - from,
{
    if from < 0 || from >= s.len() {
        s.len() as int
    } else if name_before(x, s[from]) {
        from
    } else {
        insert_position(s, x, from + 1)
    }
}

/// The properties ordered by name (a stable insertion sort).
pub open spec fn sort_by_name(s: Seq<PropView>) -> Seq<PropView>
    decreases s.len(),
{
    if s.len() == 0 {
        Seq::empty()
    } else {
        let rest = sort_by_name(s.drop_last());
        rest.insert(insert_position(rest, s.last(), 0), s.last())
    }
}

proof fn lemma_insert_position(s: Seq<PropView>, x: PropView, from: int)
    requires
        0 <= from <= s.len(),
    ensures
        from <= insert_position(s, x, from) <= s.len(),
        forall|i: int| from <= i < insert_position(s, x, from) ==> !name_before(x, #[trigger] s[i]),
        insert_position(s, x, from) < s.len() ==> name_before(x, s[insert_position(s, x, from)]),
    decreases s.len() - from,
{
    if from < s.len() && !name_before(x, s[from]) {
        lemma_insert_position(s, x, from + 1);
    }
}

/// The sorted list is ordered by name and holds the same properties.
pub proof fn lemma_sort_by_name(s: Seq<PropView>)
    ensures
        sorted_by_name(sort_by_name(s)),
        sort_by_name(s).to_multiset() == s.to_multiset(),
        sort_by_name(s).len() == s.len(),
    decreases s.len(),
{
    broadcast use vstd::seq_lib::to_multiset_insert, vstd::seq_lib::to_multiset_build;
    if s.len() > 0 {
        let rest = sort_by_name(s.drop_last());
        let x = s.last();
        lemma_sort_by_name(s.drop_last());
        lemma_insert_position(rest, x, 0);
        let p = insert_position(rest, x, 0);
        let t = rest.insert(p, x);
        rest.insert_ensures(p, x);
        assert forall|i: int, j: int| 0 <= i < j < t.len() implies !name_before(#[trigger] t[j], #[trigger] t[i]) by {
            if j < p {
                assert(t[i] == rest[i] && t[j] == rest[j]);
            } else if j == p {
                assert(t[i] == rest[i]);
                assert(!name_before(x, rest[i]));
            } else if i == p {
                // x before rest[j-1], which is not before rest[p]
                assert(t[j] == rest[j - 1]);
                assert(name_before(x, rest[p]));
                if p < j - 1 {
                    assert(!name_before(rest[j - 1], rest[p]));
                }
                crate::text::lemma_seq_lt_trichotomy(rest[j - 1].name, rest[p].name);
                crate::text::lemma_seq_lt_trichotomy(x.name, rest[j - 1].name);
                if name_before(rest[j - 1], x) && rest[p].name != rest[j - 1].name {
                    crate::text::lemma_seq_lt_transitive(rest[p].name, rest[j - 1].name, x.name);
                    crate::text::lemma_seq_lt_trichotomy(x.name, rest[p].name);
                }
            } else if i < p {
                assert(t[i] == rest[i] && t[j] == rest[j - 1]);
            } else {
                assert(t[i] == rest[i - 1] && t[j] == rest[j - 1]);
            }
        }
        assert(s.drop_last().push(x) =~= s);
        assert(t.to_multiset() == rest.to_multiset().insert(x));
        assert(s.drop_last().push(x).to_multiset() == s.drop_last().to_multiset().insert(x));
    } else {
        assert(sort_by_name(s) =~= s);
    }
}

fn copy_opt(o: &Option<String>) -> (r: Option<String>)
    ensures
        opt_view(r) == opt_view(*o),
{
    match o {
        Some(v) => Some(v.clone()),
        None => None,
    }
}

fn copy_strings(v: &Vec<String>) -> (r: Vec<String>)
    ensures
        strings_view(r@) == strings_view(v@),
{
    let mut out: Vec<String> = Vec::new();
    let mut i: usize = 0;
    while i < v.len()
        invariant
            i <= v@.len(),
            strings_view(out@) == strings_view(v@.take(i as int)),
        decreases v.len() - i,
    {
        let ghost before = strings_view(out@);
        let item = v[i].clone();
        out.push(item);
        assert(strings_view(out@) =~= before.push(v@[i as int]@));
        assert(strings_view(v@.take(i + 1)) =~= strings_view(v@.take(i as int)).push(v@[i as int]@));
        assert(strings_view(out@) =~= strings_view(v@.take(i + 1)));
        i += 1;
    }
    assert(v@.take(v@.len() as int) =~= v@);
    out
}

fn copy_property(p: &SettingProperty) -> (r: SettingProperty)
    ensures
        r@ == p@,
{
    SettingProperty {
        name: p.name.clone(),
        title: copy_opt(&p.title),
        format: copy_opt(&p.format),
        secret: p.secret,
        default: copy_opt(&p.default),
        options: copy_strings(&p.options),
    }
}

fn insert_position_of(out: &Vec<SettingProperty>, x: &SettingProperty) -> (r: usize)
    ensures
        r == insert_position(props_view(out@), x@, 0),
{
    let ghost ov = props_view(out@);
    let xn = chars_of(x.name.as_str());
    let mut p: usize = 0;
    while p < out.len()
        invariant
            p <= out@.len(),
            ov == props_view(out@),
            xn@ == x.name@,
            insert_position(ov, x@, 0) == insert_position(ov, x@, p as int),
        decreases out.len() - p,
    {
        if chars_lt(&xn, &chars_of(out[p].name.as_str())) {
            return p;
        }
        p += 1;
    }
    p
}

/// The settings properties of a schema, ordered by name.
pub fn plugin_settings_schema(schema: &Option<Vec<SettingProperty>>) -> (r: Vec<SettingProperty>)
    ensures
        props_view(r@) == (match *schema {
            Some(ps) => sort_by_name(props_view(ps@)),
            None => Seq::empty(),
        }),
{
    let props = match schema {
        Some(ps) => ps,
        None => {
            let r: Vec<SettingProperty> = Vec::new();
            assert(props_view(r@) =~= Seq::<PropView>::empty());
            return r;
        },
    };
    let ghost pv = props_view(props@);
    let mut out: Vec<SettingProperty> = Vec::new();
    let mut i: usize = 0;
    assert(props_view(out@) =~= sort_by_name(pv.take(0)));
    while i < props.len()
        invariant
            i <= props@.len(),
            pv == props_view(props@),
            props_view(out@) == sort_by_name(pv.take(i as int)),
        decreases props.len() - i,
    {
        assert(pv.take(i + 1).drop_last() =~= pv.take(i as int));
        let x = copy_property(&props[i]);
        let p = insert_position_of(&out, &x);
        proof {
            lemma_insert_position(props_view(out@), x@, 0);
        }
        let ghost rest = out@;
        out.insert(p, x);
        assert(props_view(out@) =~= props_view(rest).insert(p as int, pv[i as int]));
        i += 1;
    }
    assert(pv.take(pv.len() as int) =~= pv);
    out
}

/// An ASCII lower-case letter in upper case; other characters unchanged.
pub open spec fn ascii_upper_char(c: char) -> char {
    if 'a' <= c && c <= 'z' {
        ((c as u32) - 32) as char
    } else {
        c
    }
}

/// A setting name shown as a label: `_` becomes a space and every word starts with an
/// upper-case letter.
pub open spec fn label_from_name(n: Seq<char>) -> Seq<char> {
    Seq::new(
        n.len(),
        |i: int|
            if n[i] == '_' {
                ' '
            } else if i == 0 || n[i - 1] == '_' {
                ascii_upper_char(n[i])
            } else {
                n[i]
            },
    )
}

/// The label of a setting: its title, or its name made readable.
pub open spec fn prop_label(p: PropView) -> Seq<char> {
    match p.title {
        Some(t) => t,
        None => label_from_name(p.name),
    }
}

/// A setting is secret when its format is `secret` or it says so.
pub open spec fn prop_is_secret(p: PropView) -> bool {
    p.format == Some("secret"@) || p.secret == Some(true)
}

fn upper_ascii(c: char) -> (r: char)
    ensures
        r == ascii_upper_char(c),
{
    if 'a' <= c && c <= 'z' {
        let u: u32 = c as u32;
        let l: u8 = (u - 32) as u8;
        l as char
    } else {
        c
    }
}

/// The label shown for a setting.
pub fn schema_label(name: &str, schema: &SettingProperty) -> (r: String)
    ensures
        r@ == (match schema@.title {
            Some(t) => t,
            None => label_from_name(name@),
        }),
{
    match &schema.title {
        Some(t) => t.clone(),
        None => {
            let v = chars_of(name);
            let mut out = String::new();
            let mut i: usize = 0;
            while i < v.len()
                invariant
                    i <= v@.len(),
                    v@ == name@,
                    out@ == label_from_name(name@).take(i as int),
                decreases v.len() - i,
            {
                let c = v[i];
                let shown = if c == '_' {
                    ' '
                } else if i == 0 || v[i - 1] == '_' {
                    upper_ascii(c)
                } else {
                    c
                };
                push_char(&mut out, shown);
                i += 1;
                assert(out@ =~= label_from_name(name@).take(i as int));
            }
            assert(label_from_name(name@).take(v@.len() as int) =~= label_from_name(name@));
            out
        },
    }
}

/// Whether a setting holds a secret.
pub fn schema_is_secret(schema: &SettingProperty) -> (r: bool)
    ensures
        r == prop_is_secret(schema@),
{
    let by_format = match &schema.format {
        Some(f) => chars_eq_str(&chars_of(f.as_str()), "secret"),
        None => false,
    };
    by_format || match schema.secret {
        Some(b) => b,
        None => false,
    }
}

/// The fixed choices of a setting, if it has any.
pub fn schema_options(schema: &SettingProperty) -> (r: Vec<String>)
    ensures
        strings_view(r@) == schema@.options,
{
    copy_strings(&schema.options)
}

/// The value shown for a plain setting: the stored one, else the default, else nothing.
pub open spec fn stored_or_default(main: MainState, plugin_id: Seq<char>, p: PropView) -> Seq<char> {
    match main.plugin_settings.setting(plugin_id, p.name) {
        Some(v) => v,
        None => match p.default {
            Some(d) => d,
            None => Seq::empty(),
        },
    }
}

/// The value of a setting: the stored value, else the schema's default, else empty.
pub fn current_setting_value(main: &MainState, plugin_id: &str, name: &str, schema: &SettingProperty) -> (r: String)
    requires
        main.plugin_settings.well_formed(),
        schema.name@ == name@,
    ensures
        r@ == stored_or_default(*main, plugin_id@, schema@),
{
    match main.plugin_settings.get(plugin_id, name) {
        Some(v) => v,
        None => match &schema.default {
            Some(d) => d.clone(),
            None => String::new(),
        },
    }
}

// ---------------------------------------------------------------------------------------
// Configuration rows

/// What a configuration row edits, as plain values.
pub enum FieldView {
    InstallPlugin,
    ReloadPlugins,
    TogglePlugin(Seq<char>),
    UninstallPlugin(Seq<char>),
    PluginSetting(Seq<char>, Seq<char>, Seq<char>, bool, Seq<Seq<char>>),
}

/// A configuration row as plain values.
pub struct ConfigRowView {
    pub group_id: Seq<char>,
    pub group_name: Seq<char>,
    pub label: Seq<char>,
    pub value: Seq<char>,
    pub field: FieldView,
}

impl View for SettingsConfigRow {
    type V = ConfigRowView;

    open spec fn view(&self) -> ConfigRowView {
        ConfigRowView {
            group_id: self.group_id@,
            group_name: self.group_name@,
            label: self.label@,
            value: self.value@,
            field: match self.field {
                SettingsConfigField::InstallPlugin => FieldView::InstallPlugin,
                SettingsConfigField::ReloadPlugins => FieldView::ReloadPlugins,
                SettingsConfigField::TogglePlugin { plugin_id } => FieldView::TogglePlugin(plugin_id@),
                SettingsConfigField::UninstallPlugin { plugin_id } => FieldView::UninstallPlugin(plugin_id@),
                SettingsConfigField::PluginSetting { plugin_id, setting_name, label, secret, options } =>
                    FieldView::PluginSetting(plugin_id@, setting_name@, label@, secret, strings_view(options@)),
            },
        }
    }
}

/// Views of configuration rows.
pub open spec fn config_rows_view(s: Seq<SettingsConfigRow>) -> Seq<ConfigRowView> {
    s.map_values(|r: SettingsConfigRow| r@)
}

/// The plugin manager's two rows.
pub open spec fn manager_rows() -> Seq<ConfigRowView> {
    seq![
        ConfigRowView {
            group_id: "plugin-manager"@,
            group_name: "Plugin Manager"@,
            label: "Install local plugin"@,
            value: "open path prompt"@,
            field: FieldView::InstallPlugin,
        },
        ConfigRowView {
            group_id: "plugin-manager"@,
            group_name: "Plugin Manager"@,
            label: "Reload plugins"@,
            value: "refresh registry"@,
            field: FieldView::ReloadPlugins,
        },
    ]
}

/// `<name> <version> (<id>)`.
pub open spec fn group_name_of(p: InstalledPlugin) -> Seq<char> {
    p.manifest.name@ + " "@ + p.manifest.version@ + " ("@ + p.manifest.id@ + ")"@
}

/// The value shown for a setting: whether a secret is configured, or the plain value.
pub open spec fn setting_value(main: MainState, plugin_id: Seq<char>, p: PropView) -> Seq<char> {
    if prop_is_secret(p) {
        if strings_view(main.plugin_secret_configured@).contains(setting_key_spec(plugin_id, p.name)) {
            "configured"@
        } else {
            "not configured"@
        }
    } else {
        stored_or_default(main, plugin_id, p)
    }
}

/// The row of one setting of a plugin.
pub open spec fn property_row(main: MainState, id: Seq<char>, group: Seq<char>, p: PropView) -> ConfigRowView {
    ConfigRowView {
        group_id: id,
        group_name: group,
        label: prop_label(p),
        value: setting_value(main, id, p),
        field: FieldView::PluginSetting(id, p.name, prop_label(p), prop_is_secret(p), p.options),
    }
}

/// The settings schema of a plugin, ordered by name.
pub open spec fn plugin_props(p: InstalledPlugin) -> Seq<PropView> {
    match p.manifest.settings_schema {
        Some(ps) => sort_by_name(props_view(ps@)),
        None => Seq::empty(),
    }
}

/// The rows of one plugin: whether it is enabled, where it is installed, and its settings.
pub open spec fn plugin_config_rows(main: MainState, p: InstalledPlugin) -> Seq<ConfigRowView> {
    let id = p.manifest.id@;
    let group = group_name_of(p);
    seq![
        ConfigRowView {
            group_id: id,
            group_name: group,
            label: "Enabled"@,
            value: if p.enabled { "yes"@ } else { "no"@ },
            field: FieldView::TogglePlugin(id),
        },
        ConfigRowView {
            group_id: id,
            group_name: group,
            label: "Uninstall"@,
            value: p.directory@,
            field: FieldView::UninstallPlugin(id),
        },
    ] + plugin_props(p).map_values(|q: PropView| property_row(main, id, group, q))
}

/// The rows of the plugins, in registry order.
pub open spec fn plugins_config_rows(main: MainState, ps: Seq<InstalledPlugin>) -> Seq<ConfigRowView>
    decreases ps.len(),
{
    if ps.len() == 0 {
        Seq::empty()
    } else {
        plugins_config_rows(main, ps.drop_last()) + plugin_config_rows(main, ps.last())
    }
}

/// The configuration rows: the plugin manager, then each plugin.
pub open spec fn config_rows_spec(main: MainState) -> Seq<ConfigRowView> {
    manager_rows() + plugins_config_rows(main, main.plugin_registry.plugins@)
}

fn lit(s: &str) -> (r: String)
    ensures
        r@ == s@,
{
    let mut out = String::new();
    push_str(&mut out, s);
    out
}

fn push_plugin_rows(main: &MainState, plugin: &InstalledPlugin, rows: &mut Vec<SettingsConfigRow>)
    requires
        main.plugin_settings.well_formed(),
    ensures
        config_rows_view(final(rows)@) == config_rows_view(old(rows)@) + plugin_config_rows(*main, *plugin),
{
    let ghost start = config_rows_view(rows@);
    let id = &plugin.manifest.id;
    let mut group = String::new();
    push_str(&mut group, plugin.manifest.name.as_str());
    push_str(&mut group, " ");
    push_str(&mut group, plugin.manifest.version.as_str());
    push_str(&mut group, " (");
    push_str(&mut group, id.as_str());
    push_str(&mut group, ")");
    rows.push(SettingsConfigRow {
        group_id: id.clone(),
        group_name: group.clone(),
        label: lit("Enabled"),
        value: if plugin.enabled { lit("yes") } else { lit("no") },
        field: SettingsConfigField::TogglePlugin { plugin_id: id.clone() },
    });
    rows.push(SettingsConfigRow {
        group_id: id.clone(),
        group_name: group.clone(),
        label: lit("Uninstall"),
        value: plugin.directory.clone(),
        field: SettingsConfigField::UninstallPlugin { plugin_id: id.clone() },
    });
    let ghost head = config_rows_view(rows@);
    assert(head =~= start + plugin_config_rows(*main, *plugin).take(2));
    let props = plugin_settings_schema(&plugin.manifest.settings_schema);
    let ghost pv = props_view(props@);
    assert(pv == plugin_props(*plugin));
    let mut k: usize = 0;
    while k < props.len()
        invariant
            k <= props@.len(),
            pv == props_view(props@),
            pv == plugin_props(*plugin),
            group@ == group_name_of(*plugin),
            *id == plugin.manifest.id,
            main.plugin_settings.well_formed(),
            config_rows_view(rows@) == head + pv.take(k as int).map_values(
                |q: PropView| property_row(*main, id@, group@, q),
            ),
        decreases props.len() - k,
    {
        let prop = &props[k];
        assert(pv[k as int] == prop@);
        let label = schema_label(prop.name.as_str(), prop);
        let secret = schema_is_secret(prop);
        let options = schema_options(prop);
        let value = if secret {
            let key = setting_key(id.as_str(), prop.name.as_str());
            if contains_string(&main.plugin_secret_configured, &key) {
                lit("configured")
            } else {
                lit("not configured")
            }
        } else {
            current_setting_value(main, id.as_str(), prop.name.as_str(), prop)
        };
        let ghost before = config_rows_view(rows@);
        rows.push(SettingsConfigRow {
            group_id: id.clone(),
            group_name: group.clone(),
            label: label.clone(),
            value,
            field: SettingsConfigField::PluginSetting {
                plugin_id: id.clone(),
                setting_name: prop.name.clone(),
                label,
                secret,
                options,
            },
        });
        assert(config_rows_view(rows@) =~= before.push(property_row(*main, id@, group@, pv[k as int])));
        assert(pv.take(k + 1) =~= pv.take(k as int).push(pv[k as int]));
        k += 1;
        assert(config_rows_view(rows@) =~= head + pv.take(k as int).map_values(
            |q: PropView| property_row(*main, id@, group@, q),
        ));
    }
    assert(pv.take(pv.len() as int) =~= pv);
    assert(config_rows_view(rows@) =~= start + plugin_config_rows(*main, *plugin));
}

/// The configuration rows of the settings dialog.
pub fn config_rows(main: &MainState) -> (r: Vec<SettingsConfigRow>)
    requires
        main.plugin_settings.well_formed(),
    ensures
        config_rows_view(r@) == config_rows_spec(*main),
{
    let mut rows: Vec<SettingsConfigRow> = Vec::new();
    rows.push(SettingsConfigRow {
        group_id: lit("plugin-manager"),
        group_name: lit("Plugin Manager"),
        label: lit("Install local plugin"),
        value: lit("open path prompt"),
        field: SettingsConfigField::InstallPlugin,
    });
    rows.push(SettingsConfigRow {
        group_id: lit("plugin-manager"),
        group_name: lit("Plugin Manager"),
        label: lit("Reload plugins"),
        value: lit("refresh registry"),
        field: SettingsConfigField::ReloadPlugins,
    });
    assert(config_rows_view(rows@) =~= manager_rows());
    let plugins = &main.plugin_registry.plugins;
    let mut i: usize = 0;
    while i < plugins.len()
        invariant
            i <= plugins@.len(),
            *plugins == main.plugin_registry.plugins,
            main.plugin_settings.well_formed(),
            config_rows_view(rows@) == manager_rows() + plugins_config_rows(*main, plugins@.take(i as int)),
        decreases plugins.len() - i,
    {
        assert(plugins@.take(i + 1).drop_last() =~= plugins@.take(i as int));
        push_plugin_rows(main, &plugins[i], &mut rows);
        i += 1;
    }
    assert(plugins@.take(plugins@.len() as int) =~= plugins@);
    rows
}

// ---------------------------------------------------------------------------------------
// Key-binding rows

/// A key-binding row as plain values.
pub struct KeybindView {
    pub section: Seq<char>,
    pub keys: Seq<char>,
    pub action: Seq<char>,
    pub source: Seq<char>,
    pub conflict: bool,
}

impl View for SettingsKeybindRow {
    type V = KeybindView;

    open spec fn view(&self) -> KeybindView {
        KeybindView {
            section: self.section@,
            keys: self.keys@,
            action: self.action@,
            source: self.source@,
            conflict: self.conflict,
        }
    }
}

/// Views of key-binding rows.
pub open spec fn keybind_rows_view(s: Seq<SettingsKeybindRow>) -> Seq<KeybindView> {
    s.map_values(|r: SettingsKeybindRow| r@)
}

/// The rows of the built-in shortcuts of one help section.
pub open spec fn core_section_rows(title: Seq<char>, ids: Seq<Seq<char>>) -> Seq<KeybindView> {
    ids.map_values(
        |id: Seq<char>|
            KeybindView {
                section: title,
                keys: shortcut_keys(id),
                action: shortcut_action(id),
                source: "core"@,
                conflict: false,
            },
    )
}

/// The rows of the built-in shortcuts, section by section.
pub open spec fn core_rows(secs: Seq<(Seq<char>, Seq<Seq<char>>)>) -> Seq<KeybindView>
    decreases secs.len(),
{
    if secs.len() == 0 {
        Seq::empty()
    } else {
        core_rows(secs.drop_last()) + core_section_rows(secs.last().0, secs.last().1)
    }
}

/// The keys the built-in shortcuts use.
pub open spec fn core_keys(secs: Seq<(Seq<char>, Seq<Seq<char>>)>) -> Seq<Seq<char>> {
    core_rows(secs).map_values(|r: KeybindView| r.keys)
}

/// The quiz actions of the plugins, each with the id of its plugin, in registry order.
pub open spec fn plugin_actions(ps: Seq<InstalledPlugin>) -> Seq<(Seq<char>, QuizActionContribution)>
    decreases ps.len(),
{
    if ps.len() == 0 {
        Seq::empty()
    } else {
        plugin_actions(ps.drop_last()) + ps.last().manifest.contributes.quiz_actions@.map_values(
            |a: QuizActionContribution| (ps.last().manifest.id@, a),
        )
    }
}

/// The key a quiz action asks for, when it asks for a non-blank one.
pub open spec fn wanted_key(a: QuizActionContribution) -> Option<Seq<char>> {
    match opt_view(a.default_key) {
        Some(k) => if trim(k).len() > 0 { Some(k) } else { None },
        None => None,
    }
}

/// The rows of the plugins' quiz-action keys and the keys taken after them, starting from
/// the keys in `taken`; a key already taken is marked as a conflict.
pub open spec fn action_rows(acts: Seq<(Seq<char>, QuizActionContribution)>, taken: Seq<Seq<char>>) -> (Seq<KeybindView>, Seq<Seq<char>>)
    decreases acts.len(),
{
    if acts.len() == 0 {
        (Seq::empty(), taken)
    } else {
        let prev = action_rows(acts.drop_last(), taken);
        let (source, a) = acts.last();
        match wanted_key(a) {
            Some(k) => (
                prev.0.push(
                    KeybindView {
                        section: "Plugin Quiz Actions"@,
                        keys: k,
                        action: a.title@,
                        source,
                        conflict: prev.1.contains(k),
                    },
                ),
                prev.1.push(k),
            ),
            None => prev,
        }
    }
}

/// The key-binding rows: the built-in shortcuts, then the plugins' quiz-action keys.
pub open spec fn keybind_rows_spec(main: MainState) -> Seq<KeybindView> {
    let secs = shortcut_sections_spec();
    core_rows(secs) + action_rows(plugin_actions(main.plugin_registry.plugins@), core_keys(secs)).0
}

fn key_taken(taken: &Vec<String>, k: &String) -> (r: bool)
    ensures
        r == strings_view(taken@).contains(k@),
{
    contains_string(taken, k)
}

/// The key-binding rows of the settings dialog.
pub fn keybind_rows(main: &MainState) -> (r: Vec<SettingsKeybindRow>)
    ensures
        keybind_rows_view(r@) == keybind_rows_spec(*main),
{
    let ghost secs = shortcut_sections_spec();
    let sections = get_shortcut_sections(TabId::Dashboard);
    let mut rows: Vec<SettingsKeybindRow> = Vec::new();
    let mut taken: Vec<String> = Vec::new();
    let mut si: usize = 0;
    while si < sections.len()
        invariant
            si <= sections@.len(),
            sections@.len() == secs.len(),
            secs == shortcut_sections_spec(),
            forall|k: int| 0 <= k < sections@.len() ==> crate::shortcuts::section_is(#[trigger] sections@[k], secs[k]),
            keybind_rows_view(rows@) == core_rows(secs.take(si as int)),
            strings_view(taken@) == core_rows(secs.take(si as int)).map_values(|r: KeybindView| r.keys),
        decreases sections@.len() - si,
    {
        assert(secs.take(si + 1).drop_last() =~= secs.take(si as int));
        let section = &sections[si];
        assert(crate::shortcuts::section_is(*section, secs[si as int]));
        let ghost head = keybind_rows_view(rows@);
        let ghost head_keys = strings_view(taken@);
        let ghost ids = secs[si as int].1;
        let mut j: usize = 0;
        while j < section.items.len()
            invariant
                j <= section.items@.len(),
                section.items@.len() == ids.len(),
                section.title@ == secs[si as int].0,
                forall|q: int| 0 <= q < ids.len() ==> crate::shortcuts::display_is(#[trigger] section.items@[q], ids[q]),
                keybind_rows_view(rows@) == head + core_section_rows(secs[si as int].0, ids.take(j as int)),
                strings_view(taken@) == head_keys + core_section_rows(secs[si as int].0, ids.take(j as int)).map_values(
                    |r: KeybindView| r.keys,
                ),
            decreases section.items@.len() - j,
        {
            let item = &section.items[j];
            assert(crate::shortcuts::display_is(*item, ids[j as int]));
            let ghost before = keybind_rows_view(rows@);
            let ghost before_keys = strings_view(taken@);
            rows.push(SettingsKeybindRow {
                section: lit(section.title),
                keys: lit(item.keys),
                action: lit(item.action),
                source: lit("core"),
                conflict: false,
            });
            taken.push(lit(item.keys));
            let ghost row = KeybindView {
                section: secs[si as int].0,
                keys: shortcut_keys(ids[j as int]),
                action: shortcut_action(ids[j as int]),
                source: "core"@,
                conflict: false,
            };
            assert(keybind_rows_view(rows@) =~= before.push(row));
            assert(strings_view(taken@) =~= before_keys.push(row.keys));
            assert(core_section_rows(secs[si as int].0, ids.take(j + 1)) =~= core_section_rows(
                secs[si as int].0,
                ids.take(j as int),
            ).push(row));
            j += 1;
            assert(keybind_rows_view(rows@) =~= head + core_section_rows(secs[si as int].0, ids.take(j as int)));
            assert(strings_view(taken@) =~= head_keys + core_section_rows(secs[si as int].0, ids.take(j as int)).map_values(
                |r: KeybindView| r.keys,
            ));
        }
        assert(ids.take(ids.len() as int) =~= ids);
        si += 1;
        assert(core_rows(secs.take(si as int)).map_values(|r: KeybindView| r.keys) =~= head_keys
            + core_section_rows(secs[si - 1].0, ids).map_values(|r: KeybindView| r.keys));
    }
    assert(secs.take(secs.len() as int) =~= secs);
    let ghost core = keybind_rows_view(rows@);
    let plugins = &main.plugin_registry.plugins;
    let mut pi: usize = 0;
    while pi < plugins.len()
        invariant
            pi <= plugins@.len(),
            *plugins == main.plugin_registry.plugins,
            secs == shortcut_sections_spec(),
            core == core_rows(secs),
            keybind_rows_view(rows@) == core + action_rows(plugin_actions(plugins@.take(pi as int)), core_keys(secs)).0,
            strings_view(taken@) == action_rows(plugin_actions(plugins@.take(pi as int)), core_keys(secs)).1,
        decreases plugins.len() - pi,
    {
        assert(plugins@.take(pi + 1).drop_last() =~= plugins@.take(pi as int));
        let plugin = &plugins[pi];
        let actions = &plugin.manifest.contributes.quiz_actions;
        let ghost done = plugin_actions(plugins@.take(pi as int));
        let ghost mine = actions@.map_values(|a: QuizActionContribution| (plugin.manifest.id@, a));
        assert(plugin_actions(plugins@.take(pi + 1)) == done + mine);
        let mut j: usize = 0;
        while j < actions.len()
            invariant
                j <= actions@.len(),
                mine == actions@.map_values(|a: QuizActionContribution| (plugin.manifest.id@, a)),
                core == core_rows(secs),
                keybind_rows_view(rows@) == core + action_rows(done + mine.take(j as int), core_keys(secs)).0,
                strings_view(taken@) == action_rows(done + mine.take(j as int), core_keys(secs)).1,
            decreases actions.len() - j,
        {
            let action = &actions[j];
            let ghost cur = done + mine.take(j as int);
            let ghost next = done + mine.take(j + 1);
            assert(next.drop_last() =~= cur);
            assert(next.last() == (plugin.manifest.id@, *action));
            match &action.default_key {
                Some(key) => {
                    if !is_blank(key.as_str()) {
                        let conflict = key_taken(&taken, key);
                        let ghost before = keybind_rows_view(rows@);
                        let ghost before_keys = strings_view(taken@);
                        rows.push(SettingsKeybindRow {
                            section: lit("Plugin Quiz Actions"),
                            keys: key.clone(),
                            action: action.title.clone(),
                            source: plugin.manifest.id.clone(),
                            conflict,
                        });
                        taken.push(key.clone());
                        assert(keybind_rows_view(rows@) =~= before.push(KeybindView {
                            section: "Plugin Quiz Actions"@,
                            keys: key@,
                            action: action.title@,
                            source: plugin.manifest.id@,
                            conflict,
                        }));
                        assert(strings_view(taken@) =~= before_keys.push(key@));
                    }
                },
                None => {},
            }
            j += 1;
        }
        assert(mine.take(mine.len() as int) =~= mine);
        pi += 1;
    }
    assert(plugins@.take(plugins@.len() as int) =~= plugins@);
    rows
}

// ---------------------------------------------------------------------------------------
// Filtering and the footer

/// The settings filter in lower case.
pub open spec fn settings_query(main: MainState) -> Seq<char> {
    lowercase(trim(main.settings_search_query@))
}

/// A key-binding row matches when the query is empty or one of its texts contains it.
pub open spec fn keybind_matches(r: KeybindView, q: Seq<char>) -> bool {
    q.len() == 0 || contains_seq(lowercase(r.section), q) || contains_seq(lowercase(r.keys), q)
        || contains_seq(lowercase(r.action), q) || contains_seq(lowercase(r.source), q)
}

/// A configuration row matches when the query is empty or one of its texts contains it.
pub open spec fn config_matches(r: ConfigRowView, q: Seq<char>) -> bool {
    q.len() == 0 || contains_seq(lowercase(r.group_id), q) || contains_seq(lowercase(r.group_name), q)
        || contains_seq(lowercase(r.label), q) || contains_seq(lowercase(r.value), q)
}

fn lower_contains(text: &String, q: &Vec<char>) -> (r: bool)
    ensures
        r == contains_seq(lowercase(text@), q@),
{
    let l = to_lowercase(text.as_str());
    contains_chars(&chars_of(l.as_str()), q)
}

fn settings_query_chars(main: &MainState) -> (r: Vec<char>)
    ensures
        r@ == settings_query(*main),
{
    let t = trim_str(main.settings_search_query.as_str());
    let l = to_lowercase(t.as_str());
    chars_of(l.as_str())
}

/// The key-binding rows that match the settings filter, in order.
pub fn filtered_keybind_rows(main: &MainState) -> (r: Vec<SettingsKeybindRow>)
    ensures
        keybind_rows_view(r@) == keybind_rows_spec(*main).filter(|v: KeybindView| keybind_matches(v, settings_query(*main))),
{
    let rows = keybind_rows(main);
    let q = settings_query_chars(main);
    let ghost all = keybind_rows_view(rows@);
    let ghost pred = |v: KeybindView| keybind_matches(v, settings_query(*main));
    let mut out: Vec<SettingsKeybindRow> = Vec::new();
    let mut rest = rows;
    let mut k: usize = 0;
    let ghost full = rest@;
    let total: usize = rest.len();
    while rest.len() > 0
        invariant
            full.len() == total,
            k <= full.len(),
            rest@ == full.skip(k as int),
            all == keybind_rows_view(full),
            pred == (|v: KeybindView| keybind_matches(v, settings_query(*main))),
            q@ == settings_query(*main),
            keybind_rows_view(out@) == all.take(k as int).filter(pred),
        decreases rest@.len(),
    {
        let row = rest.remove(0);
        assert(row == full[k as int]);
        assert(all[k as int] == row@);
        let keep = q.len() == 0 || lower_contains(&row.section, &q) || lower_contains(&row.keys, &q)
            || lower_contains(&row.action, &q) || lower_contains(&row.source, &q);
        assert(keep == pred(all[k as int]));
        proof {
            reveal(Seq::filter);
            assert(all.take(k + 1).drop_last() =~= all.take(k as int));
            assert(all.take(k + 1).last() == all[k as int]);
        }
        let ghost before = keybind_rows_view(out@);
        if keep {
            out.push(row);
            assert(keybind_rows_view(out@) =~= before.push(all[k as int]));
        }
        k += 1;
        assert(rest@ =~= full.skip(k as int));
    }
    assert(all.take(all.len() as int) =~= all);
    out
}

/// The configuration rows that match the settings filter, in order.
pub fn filtered_config_rows(main: &MainState) -> (r: Vec<SettingsConfigRow>)
    requires
        main.plugin_settings.well_formed(),
    ensures
        config_rows_view(r@) == config_rows_spec(*main).filter(|v: ConfigRowView| config_matches(v, settings_query(*main))),
{
    let rows = config_rows(main);
    let q = settings_query_chars(main);
    let ghost all = config_rows_view(rows@);
    let ghost pred = |v: ConfigRowView| config_matches(v, settings_query(*main));
    let mut out: Vec<SettingsConfigRow> = Vec::new();
    let mut rest = rows;
    let ghost full = rest@;
    let total: usize = rest.len();
    let mut k: usize = 0;
    while rest.len() > 0
        invariant
            full.len() == total,
            k <= full.len(),
            rest@ == full.skip(k as int),
            all == config_rows_view(full),
            pred == (|v: ConfigRowView| config_matches(v, settings_query(*main))),
            q@ == settings_query(*main),
            config_rows_view(out@) == all.take(k as int).filter(pred),
        decreases rest@.len(),
    {
        let row = rest.remove(0);
        assert(row == full[k as int]);
        assert(all[k as int] == row@);
        let keep = q.len() == 0 || lower_contains(&row.group_id, &q) || lower_contains(&row.group_name, &q)
            || lower_contains(&row.label, &q) || lower_contains(&row.value, &q);
        assert(keep == pred(all[k as int]));
        proof {
            reveal(Seq::filter);
            assert(all.take(k + 1).drop_last() =~= all.take(k as int));
            assert(all.take(k + 1).last() == all[k as int]);
        }
        let ghost before = config_rows_view(out@);
        if keep {
            out.push(row);
            assert(config_rows_view(out@) =~= before.push(all[k as int]));
        }
        k += 1;
        assert(rest@ =~= full.skip(k as int));
    }
    assert(all.take(all.len() as int) =~= all);
    out
}

/// The footer of the settings dialog: search help while searching, else the key help.
pub fn footer_text(main: &MainState) -> (r: &'static str)
    ensures
        r@ == (if main.settings_search_active {
            " Type to search - Enter keep filter - Esc clear "@
        } else {
            " Tab switch pane - Left/Right pan - Ctrl+Left reset pan - / search - Up/Down move - Enter edit config - Esc or ? close "@
        }),
{
    if main.settings_search_active {
        " Type to search - Enter keep filter - Esc clear "
    } else {
        " Tab switch pane - Left/Right pan - Ctrl+Left reset pan - / search - Up/Down move - Enter edit config - Esc or ? close "
    }
}

// ---------------------------------------------------------------------------------------
// Which secret settings hold a value

/// The secret settings among some properties of a plugin, as (plugin id, name), in order.
pub open spec fn secret_names(props: Seq<PropView>, plugin_id: Seq<char>) -> Seq<(Seq<char>, Seq<char>)>
    decreases props.len(),
{
    if props.len() == 0 {
        Seq::empty()
    } else if prop_is_secret(props.last()) {
        secret_names(props.drop_last(), plugin_id).push((plugin_id, props.last().name))
    } else {
        secret_names(props.drop_last(), plugin_id)
    }
}

/// The secret settings of a plugin.
pub open spec fn plugin_secret_names(p: InstalledPlugin) -> Seq<(Seq<char>, Seq<char>)> {
    match p.manifest.settings_schema {
        Some(ps) => secret_names(props_view(ps@), p.manifest.id@),
        None => Seq::empty(),
    }
}

/// The secret settings of a list of plugins, plugin by plugin.
pub open spec fn secret_settings_of(plugins: Seq<InstalledPlugin>) -> Seq<(Seq<char>, Seq<char>)>
    decreases plugins.len(),
{
    if plugins.len() == 0 {
        Seq::empty()
    } else {
        secret_settings_of(plugins.drop_last()) + plugin_secret_names(plugins.last())
    }
}

fn push_plugin_secrets(out: &mut Vec<(String, String)>, p: &InstalledPlugin)
    ensures
        pairs_view(final(out)@) == pairs_view(old(out)@) + plugin_secret_names(*p),
{
    let ghost start = pairs_view(out@);
    match &p.manifest.settings_schema {
        Some(props) => {
            let ghost pv = props_view(props@);
            let mut i: usize = 0;
            while i < props.len()
                invariant
                    i <= props@.len(),
                    pv == props_view(props@),
                    pairs_view(out@) == start + secret_names(pv.take(i as int), p.manifest.id@),
                decreases props.len() - i,
            {
                assert(pv.take(i + 1).drop_last() =~= pv.take(i as int));
                assert(pv.take(i + 1).last() == props@[i as int]@);
                let ghost before = pairs_view(out@);
                if schema_is_secret(&props[i]) {
                    out.push((p.manifest.id.clone(), props[i].name.clone()));
                    assert(pairs_view(out@) =~= before.push((p.manifest.id@, props@[i as int].name@)));
                }
                i += 1;
            }
            assert(pv.take(pv.len() as int) =~= pv);
        },
        None => {
            assert(pairs_view(out@) =~= start + Seq::<(Seq<char>, Seq<char>)>::empty());
        },
    }
}

/// The secret settings of the installed plugins, as (plugin id, setting name): the
/// settings whose stored value decides whether they count as configured.
pub fn secret_settings(registry: &PluginRegistry) -> (r: Vec<(String, String)>)
    ensures
        pairs_view(r@) == secret_settings_of(registry.plugins@),
{
    let ghost ps = registry.plugins@;
    let mut out: Vec<(String, String)> = Vec::new();
    assert(pairs_view(out@) =~= secret_settings_of(ps.take(0)));
    let mut i: usize = 0;
    while i < registry.plugins.len()
        invariant
            i <= ps.len(),
            ps == registry.plugins@,
            pairs_view(out@) == secret_settings_of(ps.take(i as int)),
        decreases registry.plugins.len() - i,
    {
        assert(ps.take(i + 1).drop_last() =~= ps.take(i as int));
        push_plugin_secrets(&mut out, &registry.plugins[i]);
        i += 1;
    }
    assert(ps.take(ps.len() as int) =~= ps);
    out
}

/// The key of the `i`-th secret setting counts as configured: its stored value is present
/// and not blank.
pub open spec fn secret_configured(
    settings: Seq<(Seq<char>, Seq<char>)>,
    loaded: Seq<Option<String>>,
    i: int,
) -> bool {
    loaded[i] matches Some(v) && trim(v@).len() > 0
}

/// The keys (`<plugin id>:<name>`) of the secret settings that hold a value, given the
/// value stored for each setting that `secret_settings` lists, in the same order.
pub fn load_plugin_secret_configured(registry: &PluginRegistry, loaded: &Vec<Option<String>>) -> (r: Vec<String>)
    requires
        loaded@.len() == secret_settings_of(registry.plugins@).len(),
    ensures
        strings_view(r@).no_duplicates(),
        forall|k: Seq<char>|
            strings_view(r@).contains(k) <==> exists|i: int|
                0 <= i < loaded@.len() && secret_configured(secret_settings_of(registry.plugins@), loaded@, i)
                    && k == #[trigger] setting_key_spec(
                    secret_settings_of(registry.plugins@)[i].0,
                    secret_settings_of(registry.plugins@)[i].1,
                ),
{
    let settings = secret_settings(registry);
    let ghost sv = pairs_view(settings@);
    let mut out: Vec<String> = Vec::new();
    let mut i: usize = 0;
    while i < settings.len()
        invariant
            i <= sv.len(),
            sv == pairs_view(settings@),
            sv == secret_settings_of(registry.plugins@),
            loaded@.len() == sv.len(),
            strings_view(out@).no_duplicates(),
            forall|k: Seq<char>|
                strings_view(out@).contains(k) <==> exists|j: int|
                    0 <= j < i && secret_configured(sv, loaded@, j) && k == #[trigger] setting_key_spec(
                        sv[j].0,
                        sv[j].1,
                    ),
        decreases settings.len() - i,
    {
        let ghost before = strings_view(out@);
        let ghost key_i = setting_key_spec(sv[i as int].0, sv[i as int].1);
        let configured = match &loaded[i] {
            Some(v) => !is_blank(v.as_str()),
            None => false,
        };
        if configured {
            let key = setting_key(settings[i].0.as_str(), settings[i].1.as_str());
            if !contains_string(&out, &key) {
                out.push(key);
                assert(strings_view(out@) =~= before.push(key_i));
            }
        }
        assert forall|k: Seq<char>|
            strings_view(out@).contains(k) <==> exists|j: int|
                0 <= j < i + 1 && secret_configured(sv, loaded@, j) && k == #[trigger] setting_key_spec(
                    sv[j].0,
                    sv[j].1,
                ) by {
            if exists|j: int|
                0 <= j < i + 1 && secret_configured(sv, loaded@, j) && k == #[trigger] setting_key_spec(
                    sv[j].0,
                    sv[j].1,
                ) {
                let j = choose|j: int|
                    0 <= j < i + 1 && secret_configured(sv, loaded@, j) && k == #[trigger] setting_key_spec(
                        sv[j].0,
                        sv[j].1,
                    );
                if j < i {
                    assert(before.contains(k));
                    let q = choose|q: int| 0 <= q < before.len() && before[q] == k;
                    assert(strings_view(out@)[q] == k);
                } else {
                    assert(configured);
                    if !before.contains(k) {
                        assert(strings_view(out@).last() == k);
                    } else {
                        let q = choose|q: int| 0 <= q < before.len() && before[q] == k;
                        assert(strings_view(out@)[q] == k);
                    }
                }
            }
            if strings_view(out@).contains(k) {
                let q = choose|q: int| 0 <= q < strings_view(out@).len() && strings_view(out@)[q] == k;
                if q < before.len() {
                    assert(before[q] == k);
                    assert(before.contains(k));
                } else {
                    assert(k == key_i);
                    assert(secret_configured(sv, loaded@, i as int));
                }
            }
        }
        i += 1;
    }
    out
}

// ---------------------------------------------------------------------------------------
// Key conflicts

proof fn lemma_action_rows(acts: Seq<(Seq<char>, QuizActionContribution)>, taken: Seq<Seq<char>>)
    ensures
        action_rows(acts, taken).1 =~= taken + action_rows(acts, taken).0.map_values(|r: KeybindView| r.keys),
        forall|i: int|
            0 <= i < action_rows(acts, taken).0.len() ==> (#[trigger] action_rows(acts, taken).0[i]).conflict == (
            taken + action_rows(acts, taken).0.take(i).map_values(|r: KeybindView| r.keys)).contains(
                action_rows(acts, taken).0[i].keys,
            ),
    decreases acts.len(),
{
    if acts.len() > 0 {
        let prev = action_rows(acts.drop_last(), taken);
        lemma_action_rows(acts.drop_last(), taken);
        let (source, a) = acts.last();
        match wanted_key(a) {
            Some(k) => {
                let r = action_rows(acts, taken);
                assert(r.0.map_values(|v: KeybindView| v.keys) =~= prev.0.map_values(|v: KeybindView| v.keys).push(k));
                assert forall|i: int| 0 <= i < r.0.len() implies (#[trigger] r.0[i]).conflict == (taken + r.0.take(
                    i,
                ).map_values(|v: KeybindView| v.keys)).contains(r.0[i].keys) by {
                    if i < prev.0.len() {
                        assert(r.0.take(i) =~= prev.0.take(i));
                        assert(r.0[i] == prev.0[i]);
                    } else {
                        assert(r.0.take(i) =~= prev.0);
                    }
                }
            },
            None => {},
        }
    }
}

/// A plugin's quiz-action key never silently takes a key: its row is marked as a conflict
/// exactly when an earlier row (a built-in shortcut or an earlier plugin action) uses the
/// same key. Rows of built-in shortcuts are never marked.
pub proof fn law_key_conflicts(main: MainState, k: int)
    requires
        0 <= k < keybind_rows_spec(main).len(),
    ensures
        k < core_rows(shortcut_sections_spec()).len() ==> !keybind_rows_spec(main)[k].conflict,
        k >= core_rows(shortcut_sections_spec()).len() ==> (keybind_rows_spec(main)[k].conflict <==> exists|j: int|
            0 <= j < k && #[trigger] keybind_rows_spec(main)[j].keys == keybind_rows_spec(main)[k].keys),
{
    let secs = shortcut_sections_spec();
    let core = core_rows(secs);
    let acts = plugin_actions(main.plugin_registry.plugins@);
    let rows = action_rows(acts, core_keys(secs)).0;
    let all = keybind_rows_spec(main);
    assert(all == core + rows);
    if k < core.len() {
        lemma_core_rows_plain(secs, k);
        assert(all[k] == core[k]);
    } else {
        let i = k - core.len();
        lemma_action_rows(acts, core_keys(secs));
        let before = core_keys(secs) + rows.take(i).map_values(|r: KeybindView| r.keys);
        assert(all[k] == rows[i]);
        assert(rows[i].conflict == before.contains(rows[i].keys));
        if rows[i].conflict {
            let q = choose|q: int| 0 <= q < before.len() && before[q] == rows[i].keys;
            if q < core.len() {
                assert(all[q] == core[q]);
                assert(core_keys(secs)[q] == core[q].keys);
                assert(all[q].keys == all[k].keys);
            } else {
                assert(all[q] == rows[q - core.len()]);
                assert(all[q].keys == all[k].keys);
            }
        }
        if exists|j: int| 0 <= j < k && #[trigger] all[j].keys == all[k].keys {
            let j = choose|j: int| 0 <= j < k && #[trigger] all[j].keys == all[k].keys;
            if j < core.len() {
                assert(all[j] == core[j]);
                assert(before[j] == core[j].keys);
            } else {
                assert(all[j] == rows[j - core.len()]);
                assert(before[j] == rows[j - core.len()].keys);
            }
            assert(before.contains(rows[i].keys));
        }
    }
}

proof fn lemma_core_rows_plain(secs: Seq<(Seq<char>, Seq<Seq<char>>)>, k: int)
    requires
        0 <= k < core_rows(secs).len(),
    ensures
        !core_rows(secs)[k].conflict,
    decreases secs.len(),
{
    if secs.len() > 0 {
        let prev = core_rows(secs.drop_last());
        if k < prev.len() {
            lemma_core_rows_plain(secs.drop_last(), k);
            assert(core_rows(secs)[k] == prev[k]);
        } else {
            assert(core_rows(secs)[k] == core_section_rows(secs.last().0, secs.last().1)[k - prev.len()]);
        }
    }
}

} // verus!
