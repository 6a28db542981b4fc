//! The stored plugin settings: for each plugin id, a map from setting names to values.
use vstd::prelude::*;
use crate::quiz_html::pairs_view;
use crate::models::opt_view;
use crate::plugins::{InstalledPlugin, PluginRegistry};
use crate::text::{chars_eq, chars_eq_str, chars_of};

verus! {

/// The map written by a list of keyed entries, later entries overriding earlier ones.
pub open spec fn map_of<V>(s: Seq<(Seq<char>, V)>) -> Map<Seq<char>, V>
    decreases s.len(),
{
    if s.len() == 0 {
        Map::empty()
    } else {
        map_of(s.drop_last()).insert(s.last().0, s.last().1)
    }
}

/// No key occurs twice.
pub open spec fn unique_keys<V>(s: Seq<(Seq<char>, V)>) -> bool {
    forall|i: int, j: int| 0 <= i < j < s.len() ==> #[trigger] s[i].0 != #[trigger] s[j].0
}

/// The entries whose key is not `k`, in order.
pub open spec fn without_key<V>(s: Seq<(Seq<char>, V)>, k: Seq<char>) -> Seq<(Seq<char>, V)>
    decreases s.len(),
{
    if s.len() == 0 {
        Seq::empty()
    } else if s.last().0 == k {
        without_key(s.drop_last(), k)
    } else {
        without_key(s.drop_last(), k).push(s.last())
    }
}

proof fn lemma_map_of_dom<V>(s: Seq<(Seq<char>, V)>, k: Seq<char>)
    ensures
        map_of(s).contains_key(k) <==> exists|i: int| 0 <= i < s.len() && #[trigger] s[i].0 == k,
    decreases s.len(),
{
    if s.len() > 0 {
        lemma_map_of_dom(s.drop_last(), k);
        if map_of(s.drop_last()).contains_key(k) {
            let i = choose|i: int| 0 <= i < s.drop_last().len() && #[trigger] s.drop_last()[i].0 == k;
            assert(s[i].0 == k);
        }
        if exists|i: int| 0 <= i < s.len() && #[trigger] s[i].0 == k {
            let i = choose|i: int| 0 <= i < s.len() && #[trigger] s[i].0 == k;
            if i < s.len() - 1 {
                assert(s.drop_last()[i].0 == k);
            }
        }
    }
}

proof fn lemma_map_of_index<V>(s: Seq<(Seq<char>, V)>, i: int)
    requires
        unique_keys(s),
        0 <= i < s.len(),
    ensures
        map_of(s).contains_key(s[i].0),
        map_of(s)[s[i].0] == s[i].1,
    decreases s.len(),
{
    if i < s.len() - 1 {
        let t = s.drop_last();
        assert(unique_keys(t)) by {
            assert forall|a: int, b: int| 0 <= a < b < t.len() implies #[trigger] t[a].0 != #[trigger] t[b].0 by {
                assert(s[a].0 != s[b].0);
            }
        }
        assert(t[i] == s[i]);
        lemma_map_of_index(t, i);
        assert(s[i].0 != s[s.len() - 1].0);
    }
}

proof fn lemma_without_key<V>(s: Seq<(Seq<char>, V)>, k: Seq<char>)
    requires
        unique_keys(s),
    ensures
        map_of(without_key(s, k)) == map_of(s).remove(k),
        unique_keys(without_key(s, k)),
        forall|j: int| 0 <= j < without_key(s, k).len() ==> #[trigger] without_key(s, k)[j].0 != k,
        forall|j: int| 0 <= j < without_key(s, k).len() ==> exists|i: int| 0 <= i < s.len() && #[trigger] s[i].0
            == #[trigger] without_key(s, k)[j].0,
    decreases s.len(),
{
    if s.len() > 0 {
        let t = s.drop_last();
        assert(unique_keys(t)) by {
            assert forall|a: int, b: int| 0 <= a < b < t.len() implies #[trigger] t[a].0 != #[trigger] t[b].0 by {
                assert(s[a].0 != s[b].0);
            }
        }
        lemma_without_key(t, k);
        let w = without_key(t, k);
        let last = s.last();
        if last.0 != k {
            lemma_map_of_dom(t, last.0);
            assert(!map_of(t).contains_key(last.0)) by {
                if map_of(t).contains_key(last.0) {
                    let q = choose|q: int| 0 <= q < t.len() && #[trigger] t[q].0 == last.0;
                    assert(s[q].0 != s[s.len() - 1].0);
                }
            }
            let wp = w.push(last);
            assert(unique_keys(wp)) by {
                assert forall|a: int, b: int| 0 <= a < b < wp.len() implies #[trigger] wp[a].0 != #[trigger] wp[b].0 by {
                    if b == w.len() {
                        if wp[a].0 == last.0 {
                            assert(w[a].0 == last.0);
                            assert(exists|q: int| 0 <= q < t.len() && #[trigger] t[q].0 == last.0) by {
                                assert(exists|j: int| 0 <= j < w.len() && #[trigger] w[j].0 == last.0);
                            }
                            let q = choose|q: int| 0 <= q < t.len() && #[trigger] t[q].0 == last.0;
                            assert(s[q].0 != s[s.len() - 1].0);
                        }
                    } else {
                        assert(wp[a] == w[a] && wp[b] == w[b]);
                    }
                }
            }
            assert forall|j: int| 0 <= j < wp.len() implies #[trigger] wp[j].0 != k by {
                if j < w.len() {
                    assert(wp[j] == w[j]);
                }
            }
            assert forall|j: int| 0 <= j < wp.len() implies exists|i: int| 0 <= i < s.len() && #[trigger] s[i].0
                == #[trigger] wp[j].0 by {
                if j == w.len() {
                    assert(s[s.len() - 1].0 == wp[j].0);
                } else {
                    assert(wp[j] == w[j]);
                    let q = choose|q: int| 0 <= q < t.len() && #[trigger] t[q].0 == #[trigger] w[j].0;
                    assert(s[q] == t[q]);
                }
            }
            assert(wp.drop_last() =~= w);
            assert(map_of(wp) =~= map_of(s).remove(k));
        } else {
            assert(map_of(w) =~= map_of(s).remove(k));
            assert forall|j: int| 0 <= j < w.len() implies exists|i: int| 0 <= i < s.len() && #[trigger] s[i].0
                == #[trigger] w[j].0 by {
                let q = choose|q: int| 0 <= q < t.len() && #[trigger] t[q].0 == #[trigger] w[j].0;
                assert(s[q] == t[q]);
            }
        }
    }
}

/// The settings of one plugin.
#[derive(Debug, Clone, PartialEq, Eq)]
pub struct PluginSettings {
    pub plugin_id: String,
    pub values: Vec<(String, String)>,
}

/// All stored plugin settings.
#[derive(Debug, Clone, PartialEq, Eq)]
pub struct PluginSettingsFile {
    pub plugins: Vec<PluginSettings>,
}

/// The entries of a plugin list keyed by plugin id.
pub open spec fn plugins_entries(ps: Seq<PluginSettings>) -> Seq<(Seq<char>, Map<Seq<char>, Seq<char>>)> {
    ps.map_values(|p: PluginSettings| (p.plugin_id@, map_of(pairs_view(p.values@))))
}

impl PluginSettingsFile {
    /// Each plugin id occurs once, and each setting name once within its plugin.
    pub open spec fn well_formed(&self) -> bool {
        &&& unique_keys(plugins_entries(self.plugins@))
        &&& forall|i: int| 0 <= i < self.plugins@.len() ==> unique_keys(
            pairs_view(#[trigger] self.plugins@[i].values@),
        )
    }

    /// The settings as a map from plugin id to the map from setting name to value.
    pub open spec fn view_map(&self) -> Map<Seq<char>, Map<Seq<char>, Seq<char>>> {
        map_of(plugins_entries(self.plugins@))
    }

    /// The stored value of `name` for `plugin_id`.
    pub open spec fn setting(&self, plugin_id: Seq<char>, name: Seq<char>) -> Option<Seq<char>> {
        if self.view_map().contains_key(plugin_id) && self.view_map()[plugin_id].contains_key(name) {
            Some(self.view_map()[plugin_id][name])
        } else {
            None
        }
    }

    /// No settings stored.
    pub fn new() -> (r: Self)
        ensures
            r.well_formed(),
            r.view_map() == Map::<Seq<char>, Map<Seq<char>, Seq<char>>>::empty(),
    {
        let r = PluginSettingsFile { plugins: Vec::new() };
        assert(plugins_entries(r.plugins@) =~= Seq::empty());
        r
    }

    fn find_plugin(&self, plugin_id: &str) -> (r: Option<usize>)
        requires
            self.well_formed(),
        ensures
            match r {
                Some(i) => i < self.plugins@.len() && self.plugins@[i as int].plugin_id@ == plugin_id@,
                None => !self.view_map().contains_key(plugin_id@),
            },
    {
        let pc = chars_of(plugin_id);
        let mut i: usize = 0;
        while i < self.plugins.len()
            invariant
                i <= self.plugins@.len(),
                pc@ == plugin_id@,
                forall|j: int| 0 <= j < i ==> #[trigger] self.plugins@[j].plugin_id@ != plugin_id@,
            decreases self.plugins.len() - i,
        {
            if chars_eq(&chars_of(self.plugins[i].plugin_id.as_str()), &pc) {
                return Some(i);
            }
            i += 1;
        }
        proof {
            let e = plugins_entries(self.plugins@);
            lemma_map_of_dom(e, plugin_id@);
            if self.view_map().contains_key(plugin_id@) {
                let j = choose|j: int| 0 <= j < e.len() && #[trigger] e[j].0 == plugin_id@;
                assert(self.plugins@[j].plugin_id@ == plugin_id@);
            }
        }
        None
    }

    /// The stored value of `name` for `plugin_id`, if any.
    pub fn get(&self, plugin_id: &str, name: &str) -> (r: Option<String>)
        requires
            self.well_formed(),
        ensures
            match r {
                Some(v) => self.setting(plugin_id@, name@) == Some(v@),
                None => self.setting(plugin_id@, name@) is None,
            },
    {
        let pi = match self.find_plugin(plugin_id) {
            Some(i) => i,
            None => return None,
        };
        let plugin = &self.plugins[pi];
        let ghost pv = pairs_view(plugin.values@);
        proof {
            let e = plugins_entries(self.plugins@);
            lemma_map_of_index(e, pi as int);
            assert(e[pi as int] == (plugin_id@, map_of(pv)));
        }
        let nc = chars_of(name);
        let mut j: usize = 0;
        while j < plugin.values.len()
            invariant
                self.well_formed(),
                pi < self.plugins@.len(),
                *plugin == self.plugins@[pi as int],
                self.view_map().contains_key(plugin_id@),
                self.view_map()[plugin_id@] == map_of(pv),
                j <= plugin.values@.len(),
                pv == pairs_view(plugin.values@),
                nc@ == name@,
                forall|q: int| 0 <= q < j ==> #[trigger] pv[q].0 != name@,
            decreases plugin.values.len() - j,
        {
            if chars_eq(&chars_of(plugin.values[j].0.as_str()), &nc) {
                proof {
                    assert(unique_keys(pairs_view(self.plugins@[pi as int].values@)));
                    lemma_map_of_index(pv, j as int);
                }
                return Some(plugin.values[j].1.clone());
            }
            j += 1;
        }
        proof {
            lemma_map_of_dom(pv, name@);
            if map_of(pv).contains_key(name@) {
                let q = choose|q: int| 0 <= q < pv.len() && #[trigger] pv[q].0 == name@;
            }
        }
        None
    }

    /// Stores `value` as `name` of `plugin_id`, replacing any earlier value.
    pub fn set(&mut self, plugin_id: &str, name: &str, value: &str)
        requires
            old(self).well_formed(),
        ensures
            final(self).well_formed(),
            final(self).view_map() == old(self).view_map().insert(
                plugin_id@,
                (if old(self).view_map().contains_key(plugin_id@) {
                    old(self).view_map()[plugin_id@]
                } else {
                    Map::empty()
                }).insert(name@, value@),
            ),
    {
        let ghost before = self.view_map();
        let found = take_plugin(&mut self.plugins, plugin_id);
        let mut values: Vec<(String, String)> = match found {
            Some(vs) => vs,
            None => {
                let vs: Vec<(String, String)> = Vec::new();
                assert(pairs_view(vs@) =~= Seq::<(Seq<char>, Seq<char>)>::empty());
                vs
            },
        };
        let ghost old_values = pairs_view(values@);
        assert(map_of(old_values) == (if before.contains_key(plugin_id@) {
            before[plugin_id@]
        } else {
            Map::empty()
        }));
        remove_entry(&mut values, name);
        proof {
            lemma_without_key(old_values, name@);
        }
        values.push((name.to_owned(), value.to_owned()));
        let ghost new_values = pairs_view(values@);
        assert(new_values =~= without_key(old_values, name@).push((name@, value@)));
        assert(unique_keys(new_values)) by {
            let w = without_key(old_values, name@);
            assert forall|a: int, b: int| 0 <= a < b < new_values.len() implies #[trigger] new_values[a].0
                != #[trigger] new_values[b].0 by {
                if b == w.len() {
                    assert(new_values[a] == w[a]);
                } else {
                    assert(new_values[a] == w[a] && new_values[b] == w[b]);
                }
            }
        }
        assert(new_values.drop_last() =~= without_key(old_values, name@));
        assert(map_of(new_values) =~= map_of(old_values).insert(name@, value@));
        let ghost kept = plugins_entries(self.plugins@);
        self.plugins.push(PluginSettings { plugin_id: plugin_id.to_owned(), values });
        let ghost after = plugins_entries(self.plugins@);
        assert(after =~= kept.push((plugin_id@, map_of(new_values))));
        assert(unique_keys(after)) by {
            assert forall|a: int, b: int| 0 <= a < b < after.len() implies #[trigger] after[a].0
                != #[trigger] after[b].0 by {
                if b == kept.len() {
                    assert(after[a] == kept[a]);
                } else {
                    assert(after[a] == kept[a] && after[b] == kept[b]);
                }
            }
        }
        assert forall|i: int| 0 <= i < self.plugins@.len() implies unique_keys(
            pairs_view(#[trigger] self.plugins@[i].values@),
        ) by {
            if i < self.plugins@.len() - 1 {
                assert(self.plugins@[i] == old_kept_plugin(self.plugins@, i));
            }
        }
        assert(after.drop_last() =~= kept);
        assert(self.view_map() =~= before.insert(plugin_id@, map_of(new_values)));
    }

    /// Forgets every setting of `plugin_id`.
    pub fn remove_plugin(&mut self, plugin_id: &str)
        requires
            old(self).well_formed(),
        ensures
            final(self).well_formed(),
            final(self).view_map() == old(self).view_map().remove(plugin_id@),
    {
        let _ = take_plugin(&mut self.plugins, plugin_id);
    }
}

/// The plugin at `i` (a name for the trigger of the proof of `set`).
spec fn old_kept_plugin(ps: Seq<PluginSettings>, i: int) -> PluginSettings {
    ps[i]
}

/// Takes the entry of `plugin_id` out of the list, keeping the order of the others, and
/// returns its values when there was one.
fn take_plugin(plugins: &mut Vec<PluginSettings>, plugin_id: &str) -> (r: Option<Vec<(String, String)>>)
    requires
        unique_keys(plugins_entries(old(plugins)@)),
        forall|i: int| 0 <= i < old(plugins)@.len() ==> unique_keys(pairs_view(#[trigger] old(plugins)@[i].values@)),
    ensures
        plugins_entries(final(plugins)@) == without_key(plugins_entries(old(plugins)@), plugin_id@),
        unique_keys(plugins_entries(final(plugins)@)),
        map_of(plugins_entries(final(plugins)@)) == map_of(plugins_entries(old(plugins)@)).remove(plugin_id@),
        forall|j: int| 0 <= j < final(plugins)@.len() ==> #[trigger] final(plugins)@[j].plugin_id@ != plugin_id@,
        forall|i: int| 0 <= i < final(plugins)@.len() ==> unique_keys(pairs_view(#[trigger] final(plugins)@[i].values@)),
        match r {
            Some(vs) => {
                &&& map_of(plugins_entries(old(plugins)@)).contains_key(plugin_id@)
                &&& map_of(pairs_view(vs@)) == map_of(plugins_entries(old(plugins)@))[plugin_id@]
                &&& unique_keys(pairs_view(vs@))
            },
            None => !map_of(plugins_entries(old(plugins)@)).contains_key(plugin_id@),
        },
{
    let ghost orig = plugins@;
    let ghost e = plugins_entries(orig);
    let mut rest: Vec<PluginSettings> = Vec::new();
    std::mem::swap(&mut rest, plugins);
    let pc = chars_of(plugin_id);
    let mut found: Option<Vec<(String, String)>> = None;
    let ghost mut k: int = 0;
    assert(plugins_entries(plugins@) =~= without_key(e.take(0), plugin_id@));
    while rest.len() > 0
        invariant
            0 <= k <= orig.len(),
            rest@ == orig.skip(k),
            e == plugins_entries(orig),
            pc@ == plugin_id@,
            unique_keys(e),
            forall|i: int| 0 <= i < orig.len() ==> unique_keys(pairs_view(#[trigger] orig[i].values@)),
            plugins_entries(plugins@) == without_key(e.take(k), plugin_id@),
            forall|i: int| 0 <= i < plugins@.len() ==> unique_keys(pairs_view(#[trigger] plugins@[i].values@)),
            forall|j: int| 0 <= j < plugins@.len() ==> #[trigger] plugins@[j].plugin_id@ != plugin_id@,
            match found {
                Some(vs) => exists|i: int| 0 <= i < k && #[trigger] orig[i].plugin_id@ == plugin_id@ && pairs_view(
                    vs@,
                ) == pairs_view(orig[i].values@),
                None => forall|i: int| 0 <= i < k ==> #[trigger] orig[i].plugin_id@ != plugin_id@,
            },
        decreases rest@.len(),
    {
        let p = rest.remove(0);
        assert(p == orig[k]);
        assert(e.take(k + 1).drop_last() =~= e.take(k));
        assert(e[k] == (orig[k].plugin_id@, map_of(pairs_view(orig[k].values@))));
        if chars_eq(&chars_of(p.plugin_id.as_str()), &pc) {
            found = Some(p.values);
        } else {
            let ghost before = plugins@;
            plugins.push(p);
            assert(plugins_entries(plugins@) =~= plugins_entries(before).push(e[k]));
        }
        proof {
            k = k + 1;
        }
        assert(rest@ =~= orig.skip(k));
    }
    assert(e.take(k) =~= e);
    proof {
        lemma_without_key(e, plugin_id@);
        lemma_map_of_dom(e, plugin_id@);
        match &found {
            Some(vs) => {
                let i = choose|i: int| 0 <= i < k && #[trigger] orig[i].plugin_id@ == plugin_id@ && pairs_view(
                    vs@,
                ) == pairs_view(orig[i].values@);
                assert(e[i].0 == plugin_id@);
                lemma_map_of_index(e, i);
            },
            None => {
                if map_of(e).contains_key(plugin_id@) {
                    let i = choose|i: int| 0 <= i < e.len() && #[trigger] e[i].0 == plugin_id@;
                    assert(orig[i].plugin_id@ == plugin_id@);
                }
            },
        }
    }
    found
}

/// Drops the entry named `name`, keeping the order of the others.
fn remove_entry(values: &mut Vec<(String, String)>, name: &str)
    ensures
        pairs_view(final(values)@) == without_key(pairs_view(old(values)@), name@),
{
    let ghost src = pairs_view(values@);
    let nc = chars_of(name);
    let mut kept: Vec<(String, String)> = Vec::new();
    let mut i: usize = 0;
    while i < values.len()
        invariant
            i <= values@.len(),
            src == pairs_view(values@),
            nc@ == name@,
            pairs_view(kept@) == without_key(src.take(i as int), name@),
        decreases values.len() - i,
    {
        assert(src.take(i + 1).drop_last() =~= src.take(i as int));
        if !chars_eq(&chars_of(values[i].0.as_str()), &nc) {
            let ghost before = pairs_view(kept@);
            kept.push((values[i].0.clone(), values[i].1.clone()));
            assert(pairs_view(kept@) =~= before.push(src[i as int]));
        }
        i += 1;
    }
    assert(src.take(src.len() as int) =~= src);
    *values = kept;
}

/// The stored value of the setting `name` of `plugin_id`.
pub fn load_plugin_setting(settings: &PluginSettingsFile, plugin_id: &str, name: &str) -> (r: Option<String>)
    requires
        settings.well_formed(),
    ensures
        match r {
            Some(v) => settings.setting(plugin_id@, name@) == Some(v@),
            None => settings.setting(plugin_id@, name@) is None,
        },
{
    settings.get(plugin_id, name)
}

/// A setting reads back the value last stored for it; storing one setting leaves every
/// other setting as it was; forgetting a plugin forgets all of its settings and no other.
pub proof fn law_settings_read_back(
    before: PluginSettingsFile,
    after_set: PluginSettingsFile,
    after_remove: PluginSettingsFile,
    plugin_id: Seq<char>,
    name: Seq<char>,
    value: Seq<char>,
    other_plugin: Seq<char>,
    other_name: Seq<char>,
)
    requires
        after_set.view_map() == before.view_map().insert(
            plugin_id,
            (if before.view_map().contains_key(plugin_id) {
                before.view_map()[plugin_id]
            } else {
                Map::empty()
            }).insert(name, value),
        ),
        after_remove.view_map() == before.view_map().remove(plugin_id),
    ensures
        after_set.setting(plugin_id, name) == Some(value),
        (other_plugin != plugin_id || other_name != name) ==> after_set.setting(other_plugin, other_name)
            == before.setting(other_plugin, other_name),
        after_remove.setting(plugin_id, other_name) is None,
        other_plugin != plugin_id ==> after_remove.setting(other_plugin, other_name) == before.setting(
            other_plugin,
            other_name,
        ),
{
}

// ---------------------------------------------------------------------------------------
// The settings kept for the installed plugins

/// Some plugin of the list has the id `plugin_id`.
pub open spec fn registers(plugins: Seq<InstalledPlugin>, plugin_id: Seq<char>) -> bool {
    exists|k: int| 0 <= k < plugins.len() && #[trigger] plugins[k].manifest.id@ == plugin_id
}

/// The settings kept for a plugin: those stored for it; for the quiz AI extension, a model
/// kept in the secret store stands in when no model setting is stored.
pub open spec fn cached_plugin_settings(
    all: PluginSettingsFile,
    plugin_id: Seq<char>,
    stored_model: Option<Seq<char>>,
) -> Map<Seq<char>, Seq<char>> {
    let base = if all.view_map().contains_key(plugin_id) {
        all.view_map()[plugin_id]
    } else {
        Map::empty()
    };
    if plugin_id == "quiz-ai-extension"@ && !base.contains_key("gemini_model"@) && stored_model is Some {
        base.insert("gemini_model"@, stored_model->0)
    } else {
        base
    }
}

fn copy_pairs(v: &Vec<(String, String)>) -> (r: Vec<(String, String)>)
    ensures
        pairs_view(r@) == pairs_view(v@),
{
    let mut out: Vec<(String, String)> = Vec::new();
    let mut i: usize = 0;
    while i < v.len()
        invariant
            i <= v@.len(),
            pairs_view(out@) == pairs_view(v@).take(i as int),
        decreases v.len() - i,
    {
        let ghost before = pairs_view(out@);
        let a = v[i].0.clone();
        let b = v[i].1.clone();
        out.push((a, b));
        assert(pairs_view(out@) =~= before.push((v@[i as int].0@, v@[i as int].1@)));
        assert(pairs_view(v@).take(i + 1) =~= pairs_view(v@).take(i as int).push((v@[i as int].0@, v@[i as int].1@)));
        i += 1;
    }
    assert(pairs_view(v@).take(v@.len() as int) =~= pairs_view(v@));
    out
}

fn has_name(values: &Vec<(String, String)>, name: &str) -> (r: bool)
    ensures
        r == map_of(pairs_view(values@)).contains_key(name@),
{
    let ghost pv = pairs_view(values@);
    let nc = chars_of(name);
    let mut j: usize = 0;
    while j < values.len()
        invariant
            j <= values@.len(),
            pv == pairs_view(values@),
            nc@ == name@,
            forall|q: int| 0 <= q < j ==> #[trigger] pv[q].0 != name@,
        decreases values.len() - j,
    {
        if chars_eq(&chars_of(values[j].0.as_str()), &nc) {
            proof {
                lemma_map_of_dom(pv, name@);
                assert(pv[j as int].0 == name@);
            }
            return true;
        }
        j += 1;
    }
    proof {
        lemma_map_of_dom(pv, name@);
        if map_of(pv).contains_key(name@) {
            let q = choose|q: int| 0 <= q < pv.len() && #[trigger] pv[q].0 == name@;
        }
    }
    false
}

impl PluginSettingsFile {
    fn plugin_values(&self, plugin_id: &str) -> (r: Option<&Vec<(String, String)>>)
        requires
            self.well_formed(),
        ensures
            match r {
                Some(vs) => {
                    &&& self.view_map().contains_key(plugin_id@)
                    &&& map_of(pairs_view(vs@)) == self.view_map()[plugin_id@]
                    &&& unique_keys(pairs_view(vs@))
                },
                None => !self.view_map().contains_key(plugin_id@),
            },
    {
        match self.find_plugin(plugin_id) {
            Some(i) => {
                proof {
                    let e = plugins_entries(self.plugins@);
                    lemma_map_of_index(e, i as int);
                    assert(e[i as int] == (plugin_id@, map_of(pairs_view(self.plugins@[i as int].values@))));
                }
                Some(&self.plugins[i].values)
            },
            None => None,
        }
    }
}

/// The settings kept for the installed plugins: for each plugin id of the registry, what
/// `all` stores for it, with the quiz AI extension's model taken from `stored_model` (the
/// model kept in the secret store) when no model setting is stored.
pub fn load_plugin_settings_cache(
    registry: &PluginRegistry,
    all: &PluginSettingsFile,
    stored_model: &Option<String>,
) -> (r: PluginSettingsFile)
    requires
        all.well_formed(),
    ensures
        r.well_formed(),
        forall|pid: Seq<char>| r.view_map().contains_key(pid) <==> registers(registry.plugins@, pid),
        forall|pid: Seq<char>|
            registers(registry.plugins@, pid) ==> #[trigger] r.view_map()[pid] == cached_plugin_settings(
                *all,
                pid,
                opt_view(*stored_model),
            ),
{
    let ghost model = opt_view(*stored_model);
    let mut r = PluginSettingsFile::new();
    let mut i: usize = 0;
    while i < registry.plugins.len()
        invariant
            i <= registry.plugins@.len(),
            all.well_formed(),
            model == opt_view(*stored_model),
            r.well_formed(),
            forall|pid: Seq<char>| r.view_map().contains_key(pid) <==> registers(registry.plugins@.take(i as int), pid),
            forall|pid: Seq<char>|
                r.view_map().contains_key(pid) ==> #[trigger] r.view_map()[pid] == cached_plugin_settings(*all, pid, model),
        decreases registry.plugins.len() - i,
    {
        let ghost done = registry.plugins@.take(i as int);
        let ghost next = registry.plugins@.take(i + 1);
        let pid = registry.plugins[i].manifest.id.as_str();
        assert(next[i as int].manifest.id@ == pid@);
        assert forall|q: Seq<char>| registers(next, q) <==> registers(done, q) || q == pid@ by {
            if registers(next, q) {
                let k = choose|k: int| 0 <= k < next.len() && #[trigger] next[k].manifest.id@ == q;
                if k < i {
                    assert(done[k] == next[k]);
                }
            }
            if registers(done, q) {
                let k = choose|k: int| 0 <= k < done.len() && #[trigger] done[k].manifest.id@ == q;
                assert(next[k] == done[k]);
            }
        }
        let existing = r.find_plugin(pid);
        if existing.is_none() {
            let mut values = match all.plugin_values(pid) {
                Some(vs) => copy_pairs(vs),
                None => {
                    let v: Vec<(String, String)> = Vec::new();
                    assert(pairs_view(v@) =~= Seq::<(Seq<char>, Seq<char>)>::empty());
                    v
                },
            };
            let ghost base = pairs_view(values@);
            assert(map_of(base) == (if all.view_map().contains_key(pid@) {
                all.view_map()[pid@]
            } else {
                Map::empty()
            }));
            assert(unique_keys(base));
            let is_quiz_ai = chars_eq_str(&chars_of(pid), "quiz-ai-extension");
            if is_quiz_ai && !has_name(&values, "gemini_model") {
                match stored_model {
                    Some(m) => {
                        values.push(("gemini_model".to_owned(), m.clone()));
                        let ghost nv = pairs_view(values@);
                        assert(nv =~= base.push(("gemini_model"@, m@)));
                        assert(nv.drop_last() =~= base);
                        proof {
                            lemma_map_of_dom(base, "gemini_model"@);
                        }
                        assert(unique_keys(nv)) by {
                            assert forall|a: int, b: int| 0 <= a < b < nv.len() implies #[trigger] nv[a].0
                                != #[trigger] nv[b].0 by {
                                if b == base.len() {
                                    assert(nv[a] == base[a]);
                                } else {
                                    assert(nv[a] == base[a] && nv[b] == base[b]);
                                }
                            }
                        }
                    },
                    None => {},
                }
            }
            let ghost vals = pairs_view(values@);
            assert(map_of(vals) == cached_plugin_settings(*all, pid@, model));
            assert(unique_keys(vals));
            let ghost before = plugins_entries(r.plugins@);
            let ghost old_plugins = r.plugins@;
            proof {
                lemma_map_of_dom(before, pid@);
            }
            r.plugins.push(PluginSettings { plugin_id: pid.to_owned(), values });
            let ghost after = plugins_entries(r.plugins@);
            assert(after =~= before.push((pid@, map_of(vals))));
            assert(after.drop_last() =~= before);
            assert(unique_keys(after)) by {
                assert forall|a: int, b: int| 0 <= a < b < after.len() implies #[trigger] after[a].0
                    != #[trigger] after[b].0 by {
                    if b == before.len() {
                        assert(after[a] == before[a]);
                    } else {
                        assert(after[a] == before[a] && after[b] == before[b]);
                    }
                }
            }
            assert forall|k: int| 0 <= k < r.plugins@.len() implies unique_keys(
                pairs_view(#[trigger] r.plugins@[k].values@),
            ) by {
                if k < old_plugins.len() {
                    assert(r.plugins@[k] == old_plugins[k]);
                }
            }
            assert(r.view_map() == map_of(before).insert(pid@, map_of(vals)));
        } else {
            proof {
                let k = existing->0 as int;
                lemma_map_of_dom(plugins_entries(r.plugins@), pid@);
                assert(plugins_entries(r.plugins@)[k].0 == pid@);
            }
            assert(r.view_map().contains_key(pid@));
            assert(registers(done, pid@));
        }
        assert forall|q: Seq<char>| r.view_map().contains_key(q) <==> registers(next, q) by {
            assert(registers(next, q) <==> registers(done, q) || q == pid@);
        }
        i += 1;
    }
    assert(registry.plugins@.take(registry.plugins@.len() as int) =~= registry.plugins@);
    r
}

} // verus!
