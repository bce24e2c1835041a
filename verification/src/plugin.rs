//! Plugins: the metadata a plugin reports, and the widget definitions each
//! plugin contributes.
use vstd::prelude::*;
use indexmap::IndexMap;
use crate::ordered::{def_entries, def_map_insert, def_map_new, ordered_insert};
use crate::text::{concat, concat3, views};
use crate::widgets::WidgetDefinition;

verus! {

/// What a plugin's init function reported: each string when present and
/// valid UTF-8.
#[derive(Debug, Clone)]
pub struct RawPluginInfo {
    pub name: Option<String>,
    pub version: Option<String>,
    pub description: Option<String>,
    pub widget_names: Vec<Option<String>>,
}

/// A loaded plugin's metadata.
#[derive(Debug, Clone)]
pub struct LoadedPlugin {
    pub name: String,
    pub version: String,
    pub description: String,
    /// Widget names exported by this plugin
    pub widget_names: Vec<String>,
}

pub open spec fn text_or(v: Option<String>, d: Seq<char>) -> Seq<char> {
    match v {
        Some(s) => s@,
        None => d,
    }
}

/// The names that were present, in order.
pub open spec fn present(s: Seq<Option<String>>) -> Seq<Seq<char>>
    decreases s.len(),
{
    if s.len() == 0 {
        Seq::empty()
    } else {
        match s.last() {
            Some(n) => present(s.drop_last()).push(n@),
            None => present(s.drop_last()),
        }
    }
}

/// The metadata of a plugin: missing name `unknown`, version `0.0.0`,
/// description empty; unreadable widget names skipped.
pub fn plugin_metadata(raw: &RawPluginInfo) -> (p: LoadedPlugin)
    ensures
        p.name@ == text_or(raw.name, "unknown"@),
        p.version@ == text_or(raw.version, "0.0.0"@),
        p.description@ == text_or(raw.description, Seq::empty()),
        views(p.widget_names@) == present(raw.widget_names@),
{
    let name = match &raw.name {
        Some(n) => n.clone(),
        None => "unknown".to_owned(),
    };
    let version = match &raw.version {
        Some(v) => v.clone(),
        None => "0.0.0".to_owned(),
    };
    let description = match &raw.description {
        Some(d) => d.clone(),
        None => String::new(),
    };
    let mut widget_names: Vec<String> = Vec::new();
    let mut i: usize = 0;
    while i < raw.widget_names.len()
        invariant
            i <= raw.widget_names@.len(),
            views(widget_names@) == present(raw.widget_names@.take(i as int)),
        decreases raw.widget_names.len() - i,
    {
        proof {
            assert(raw.widget_names@.take(i as int + 1).drop_last() =~= raw.widget_names@.take(i as int));
        }
        match &raw.widget_names[i] {
            Some(n) => {
                let ghost before = views(widget_names@);
                widget_names.push(n.clone());
                assert(views(widget_names@) =~= before.push(n@));
            },
            None => {},
        }
        i = i + 1;
    }
    assert(raw.widget_names@.take(i as int) =~= raw.widget_names@);
    LoadedPlugin { name, version, description, widget_names }
}

/// The definition standing for plugin widget `widget` of plugin `plugin`.
pub open spec fn is_stub(d: WidgetDefinition, plugin: Seq<char>, widget: Seq<char>) -> bool {
    &&& d.name@ == widget
    &&& d.description@ == "Plugin widget from "@ + plugin
    &&& d.template@ == "<box class=\"nova-plugin-"@ + widget + "\"/>"@
    &&& crate::ordered::var_entries(d.vars).len() == 0
    &&& d.default_style@.len() == 0
}

/// The stub definition of a plugin widget: an empty box with a class named
/// after the widget.
pub fn stub_definition(plugin: &str, widget: &str) -> (d: WidgetDefinition)
    ensures
        is_stub(d, plugin@, widget@),
{
    WidgetDefinition {
        name: widget.to_owned(),
        description: concat("Plugin widget from ", plugin),
        template: concat3("<box class=\"nova-plugin-", widget, "\"/>"),
        vars: crate::ordered::var_map_new(),
        default_style: String::new(),
    }
}

/// The loaded plugins and the widget definitions they contribute.
#[derive(Debug)]
pub struct PluginLoader {
    plugins: Vec<LoadedPlugin>,
    contributed_defs: IndexMap<String, WidgetDefinition>,
}

impl PluginLoader {
    pub closed spec fn plugins(&self) -> Seq<LoadedPlugin> {
        self.plugins@
    }

    /// The contributed (name, definition) pairs, in order.
    pub closed spec fn contributed(&self) -> Seq<(Seq<char>, WidgetDefinition)> {
        def_entries(self.contributed_defs)
    }

    /// No plugins, no definitions.
    pub fn new() -> (l: Self)
        ensures
            l.plugins().len() == 0,
            l.contributed().len() == 0,
    {
        PluginLoader { plugins: Vec::new(), contributed_defs: def_map_new() }
    }

    /// Record a plugin that loaded: its metadata, and a stub definition for
    /// each of its widgets (a later plugin's widget replaces an earlier one
    /// of the same name, keeping its place).
    pub fn add_plugin(&mut self, raw: &RawPluginInfo)
        ensures
            final(self).plugins().len() == old(self).plugins().len() + 1,
            final(self).plugins().drop_last() == old(self).plugins(),
            final(self).plugins().last().name@ == text_or(raw.name, "unknown"@),
            final(self).plugins().last().version@ == text_or(raw.version, "0.0.0"@),
            final(self).plugins().last().description@ == text_or(raw.description, Seq::empty()),
            views(final(self).plugins().last().widget_names@) == present(raw.widget_names@),
            final(self).contributed().len() >= old(self).contributed().len(),
            forall|i: int| 0 <= i < present(raw.widget_names@).len() ==>
                crate::ordered::ordered_get(final(self).contributed(), #[trigger] present(raw.widget_names@)[i]) is Some,
    {
        let p = plugin_metadata(raw);
        let mut i: usize = 0;
        while i < p.widget_names.len()
            invariant
                i <= p.widget_names@.len(),
                def_entries(self.contributed_defs).len() >= old(self).contributed().len(),
                self.plugins@ == old(self).plugins(),
                forall|j: int| 0 <= j < i ==>
                    crate::ordered::ordered_get(def_entries(self.contributed_defs), #[trigger] p.widget_names@[j]@) is Some,
            decreases p.widget_names.len() - i,
        {
            let d = stub_definition(p.name.as_str(), p.widget_names[i].as_str());
            let ghost before = def_entries(self.contributed_defs);
            let ghost dv = d;
            def_map_insert(&mut self.contributed_defs, p.widget_names[i].clone(), d);
            proof {
                lemma_insert_keeps_present(before, p.widget_names@[i as int]@, dv);
                assert forall|j: int| 0 <= j <= i implies
                    crate::ordered::ordered_get(def_entries(self.contributed_defs), #[trigger] p.widget_names@[j]@) is Some by {
                    if j < i {
                        lemma_insert_keeps_present_other(before, p.widget_names@[i as int]@, dv, p.widget_names@[j]@);
                    }
                }
            }
            i = i + 1;
        }
        proof {
            assert forall|j: int| 0 <= j < present(raw.widget_names@).len() implies
                crate::ordered::ordered_get(def_entries(self.contributed_defs), #[trigger] present(raw.widget_names@)[j]) is Some by {
                assert(views(p.widget_names@)[j] == p.widget_names@[j]@);
            }
        }
        self.plugins.push(p);
        assert(self.plugins@.drop_last() =~= old(self).plugins());
    }

    /// The widget definitions the plugins contribute.
    pub fn contributed_definitions(&self) -> (m: &IndexMap<String, WidgetDefinition>)
        ensures
            def_entries(*m) == self.contributed(),
    {
        &self.contributed_defs
    }

    /// How many plugins loaded.
    pub fn plugin_count(&self) -> (n: usize)
        ensures
            n == self.plugins().len(),
    {
        self.plugins.len()
    }

    /// The names of the loaded plugins, in load order.
    pub fn plugin_names(&self) -> (r: Vec<String>)
        ensures
            views(r@) == self.plugins().map_values(|p: LoadedPlugin| p.name@),
    {
        let mut r: Vec<String> = Vec::new();
        let mut i: usize = 0;
        while i < self.plugins.len()
            invariant
                i <= self.plugins@.len(),
                views(r@) == self.plugins().map_values(|p: LoadedPlugin| p.name@).take(i as int),
            decreases self.plugins.len() - i,
        {
            let ghost before = views(r@);
            r.push(self.plugins[i].name.clone());
            assert(views(r@) =~= before.push(self.plugins@[i as int].name@));
            assert(views(r@) =~= self.plugins().map_values(|p: LoadedPlugin| p.name@).take(i as int + 1));
            i = i + 1;
        }
        assert(self.plugins().map_values(|p: LoadedPlugin| p.name@).take(i as int)
            =~= self.plugins().map_values(|p: LoadedPlugin| p.name@));
        r
    }
}

proof fn lemma_insert_keeps_present(s: Seq<(Seq<char>, WidgetDefinition)>, k: Seq<char>, v: WidgetDefinition)
    ensures
        crate::ordered::ordered_get(ordered_insert(s, k, v), k) is Some,
        ordered_insert(s, k, v).len() >= s.len(),
{
    crate::ordered::lemma_key_pos(s, k);
    let r = ordered_insert(s, k, v);
    crate::ordered::lemma_key_pos(r, k);
    let p = crate::ordered::key_pos(s, k);
    if crate::ordered::key_pos(r, k) >= r.len() {
        if p < s.len() {
            assert(r[p as int].0 == k);
        } else {
            assert(r[s.len() as int].0 == k);
        }
    }
}

proof fn lemma_insert_keeps_present_other(s: Seq<(Seq<char>, WidgetDefinition)>, k: Seq<char>, v: WidgetDefinition, other: Seq<char>)
    requires
        crate::ordered::ordered_get(s, other) is Some,
    ensures
        crate::ordered::ordered_get(ordered_insert(s, k, v), other) is Some,
{
    crate::ordered::lemma_key_pos(s, k);
    crate::ordered::lemma_key_pos(s, other);
    let r = ordered_insert(s, k, v);
    crate::ordered::lemma_key_pos(r, other);
    let q = crate::ordered::key_pos(s, other);
    if crate::ordered::key_pos(r, other) >= r.len() {
        if q == crate::ordered::key_pos(s, k) {
            assert(r[q as int].0 == k);
            assert(s[q as int].0 == other);
        } else {
            assert(r[q as int] == s[q as int]);
        }
    }
}

} // verus!
