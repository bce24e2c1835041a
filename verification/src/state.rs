//! Engine state: the widget-definition registry and the daemon's global state.
use vstd::prelude::*;
use indexmap::IndexMap;
use crate::config::schema::NovaConfig;
use crate::ordered::{
    def_entries, def_map_get, def_map_get_index, def_map_insert, def_map_len, def_map_new,
    keys_distinct, key_pos, lemma_key_pos, lemma_ordered_insert_distinct, ordered_get,
    ordered_insert,
};
use crate::strmap::StrMap;
use crate::text::views;
use crate::widgets::WidgetDefinition;

verus! {

/// Identifier of a rendered screen.
pub type ScreenId = u32;

/// Registry mapping widget names to their definitions, in registration order.
#[derive(Debug)]
pub struct WidgetRegistry {
    inner: IndexMap<String, WidgetDefinition>,
}

/// Every definition is stored under its own name.
pub open spec fn stored_under_own_name(s: Seq<(Seq<char>, WidgetDefinition)>) -> bool {
    forall|i: int| 0 <= i < s.len() ==> (#[trigger] s[i]).0 == s[i].1.name@
}

impl WidgetRegistry {
    #[verifier::type_invariant]
    closed spec fn inv(self) -> bool {
        &&& keys_distinct(def_entries(self.inner))
        &&& stored_under_own_name(def_entries(self.inner))
    }

    /// The registered (name, definition) pairs, in registration order.
    pub closed spec fn entries(&self) -> Seq<(Seq<char>, WidgetDefinition)> {
        def_entries(self.inner)
    }

    /// The registered names, in registration order.
    pub open spec fn name_seq(&self) -> Seq<Seq<char>> {
        self.entries().map_values(|e: (Seq<char>, WidgetDefinition)| e.0)
    }

    /// The definition registered under `name`, if any.
    pub open spec fn lookup(&self, name: Seq<char>) -> Option<WidgetDefinition> {
        ordered_get(self.entries(), name)
    }

    /// An empty registry.
    pub fn new() -> (r: Self)
        ensures
            r.entries() == Seq::<(Seq<char>, WidgetDefinition)>::empty(),
    {
        WidgetRegistry { inner: def_map_new() }
    }

    /// Register a definition under its name: a new name goes last, an existing
    /// name keeps its place and gets the new definition.
    pub fn register(&mut self, def: WidgetDefinition)
        ensures
            final(self).entries() == ordered_insert(old(self).entries(), def.name@, def),
    {
        proof {
            use_type_invariant(&*self);
        }
        let ghost old_entries = def_entries(self.inner);
        let ghost d = def;
        let name = def.name.clone();
        let mut m = def_map_new();
        std::mem::swap(&mut m, &mut self.inner);
        def_map_insert(&mut m, name, def);
        proof {
            lemma_ordered_insert_distinct(old_entries, d.name@, d);
            lemma_key_pos(old_entries, d.name@);
            let s = def_entries(m);
            assert forall|i: int| 0 <= i < s.len() implies (#[trigger] s[i]).0 == s[i].1.name@ by {
                if i < old_entries.len() && i != key_pos(old_entries, d.name@) {
                    assert(s[i] == old_entries[i]);
                }
            }
        }
        self.inner = m;
    }

    /// The definition registered under `name`.
    pub fn get(&self, name: &str) -> (r: Option<&WidgetDefinition>)
        ensures
            match r {
                Some(d) => self.lookup(name@) == Some(*d),
                None => self.lookup(name@) is None,
            },
    {
        match def_map_get(&self.inner, name) {
            Some(d) => Some(d),
            None => None,
        }
    }

    /// All registered names, in registration order.
    pub fn names(&self) -> (r: Vec<String>)
        ensures
            views(r@) == self.name_seq(),
    {
        let n = def_map_len(&self.inner);
        let mut r: Vec<String> = Vec::new();
        let mut i: usize = 0;
        while i < n
            invariant
                n == self.entries().len(),
                i <= n,
                views(r@) == self.name_seq().take(i as int),
            decreases n - i,
        {
            let ghost before = r@;
            match def_map_get_index(&self.inner, i) {
                Some((k, _)) => {
                    r.push(k.clone());
                    assert(views(r@) =~= views(before).push(k@));
                    assert(views(r@) =~= self.name_seq().take(i as int + 1));
                },
                None => {},
            }
            i = i + 1;
        }
        assert(self.name_seq().take(n as int) =~= self.name_seq());
        r
    }

    /// Number of registered definitions.
    pub fn len(&self) -> (n: usize)
        ensures
            n == self.entries().len(),
    {
        def_map_len(&self.inner)
    }

    /// Whether nothing is registered.
    pub fn is_empty(&self) -> (b: bool)
        ensures
            b == (self.entries().len() == 0),
    {
        def_map_len(&self.inner) == 0
    }
}

/// A lookup right after `register(d)` returns `d`.
pub proof fn law_register_then_get(before: WidgetRegistry, after: WidgetRegistry, d: WidgetDefinition)
    requires
        after.entries() == ordered_insert(before.entries(), d.name@, d),
    ensures
        after.lookup(d.name@) == Some(d),
{
    lemma_key_pos(before.entries(), d.name@);
    let e = before.entries();
    let s = after.entries();
    let p = key_pos(e, d.name@);
    lemma_key_pos(s, d.name@);
    assert forall|j: int| 0 <= j < p implies s[j].0 != d.name@ by {
        assert(s[j] == e[j]);
    }
    assert(s[p as int].0 == d.name@);
    if key_pos(s, d.name@) < p {
        let q = key_pos(s, d.name@) as int;
        assert(s[q] == e[q]);
    }
}

/// Registering a definition leaves the definition of every other name as it was.
pub proof fn law_register_keeps_others(before: WidgetRegistry, after: WidgetRegistry, d: WidgetDefinition, other: Seq<char>)
    requires
        after.entries() == ordered_insert(before.entries(), d.name@, d),
        other != d.name@,
    ensures
        after.lookup(other) == before.lookup(other),
{
    let e = before.entries();
    let s = after.entries();
    lemma_key_pos(e, d.name@);
    lemma_key_pos(e, other);
    lemma_key_pos(s, other);
    let p = key_pos(e, d.name@) as int;
    let q = key_pos(e, other) as int;
    let q2 = key_pos(s, other) as int;
    assert forall|j: int| 0 <= j < s.len() && j != p && j < e.len() implies s[j] == e[j] by {}
    if q2 < q {
        if q2 == p {
            assert(s[q2].0 == d.name@);
        } else if q2 < e.len() {
            assert(s[q2] == e[q2]);
        }
    }
    if q < q2 {
        if q < e.len() {
            if q == p {
                assert(e[q].0 == d.name@);
            }
            assert(s[q] == e[q]);
        }
    }
}

/// Global state of the daemon.
#[derive(Debug)]
pub struct AppState {
    /// Path to the config file (used for reload)
    pub config_path: String,
    /// Currently active configuration
    pub config: NovaConfig,
    /// Whether the CSS provider has been loaded
    pub css_loaded: bool,
    /// Map from screen name to its rendered screen ID
    pub active_screens: StrMap<ScreenId>,
    /// Registry of available widget definitions
    pub widget_registry: WidgetRegistry,
    /// Available profile names
    pub profiles: Vec<String>,
    /// Name of the currently active profile
    pub active_profile: String,
    /// Whether the daemon is running
    pub running: bool,
    /// Visibility state of individual widget instances, keyed by widget ID
    pub widget_visibility: StrMap<bool>,
}

impl AppState {
    /// Whether the widget `id` is visible: its recorded state, or visible
    /// when nothing was recorded.
    pub open spec fn visible(&self, id: Seq<char>) -> bool {
        if self.widget_visibility@.contains_key(id) {
            self.widget_visibility@[id]
        } else {
            true
        }
    }

    /// Fresh state for `config`, read from `config_path`: nothing rendered or
    /// registered yet, the single profile "default" active, running.
    pub fn new(config: NovaConfig, config_path: String) -> (s: Self)
        ensures
            s.config_path@ == config_path@,
            s.config == config,
            !s.css_loaded,
            s.active_screens@ == Map::<Seq<char>, ScreenId>::empty(),
            s.widget_registry.entries() == Seq::<(Seq<char>, WidgetDefinition)>::empty(),
            views(s.profiles@) == seq!["default"@],
            s.active_profile@ == "default"@,
            s.running,
            s.widget_visibility@ == Map::<Seq<char>, bool>::empty(),
    {
        let mut profiles: Vec<String> = Vec::new();
        profiles.push("default".to_owned());
        let s = AppState {
            config_path,
            config,
            css_loaded: false,
            active_screens: StrMap::new(),
            widget_registry: WidgetRegistry::new(),
            profiles,
            active_profile: "default".to_owned(),
            running: true,
            widget_visibility: StrMap::new(),
        };
        assert(views(s.profiles@) =~= seq!["default"@]);
        s
    }

    /// Whether instance `id`, which starts visible or not as `start` says, is
    /// shown: its recorded state, else its starting state.
    pub open spec fn shown(&self, id: Seq<char>, start: bool) -> bool {
        if self.widget_visibility@.contains_key(id) {
            self.widget_visibility@[id]
        } else {
            start
        }
    }

    /// Whether instance `id` (starting visible or not as `start` says) is shown.
    pub fn instance_shown(&self, widget_id: &str, start: bool) -> (b: bool)
        ensures
            b == self.shown(widget_id@, start),
    {
        match self.widget_visibility.get(widget_id) {
            Some(v) => *v,
            None => start,
        }
    }

    /// Whether the widget `id` is visible (visible unless recorded otherwise).
    pub fn is_visible(&self, widget_id: &str) -> (b: bool)
        ensures
            b == self.visible(widget_id@),
    {
        match self.widget_visibility.get(widget_id) {
            Some(v) => *v,
            None => true,
        }
    }

    /// Record the visibility of widget `id`.
    pub fn set_visible(&mut self, widget_id: &str, visible: bool)
        ensures
            final(self).widget_visibility@ == old(self).widget_visibility@.insert(widget_id@, visible),
            final(self).config_path == old(self).config_path,
            final(self).config == old(self).config,
            final(self).css_loaded == old(self).css_loaded,
            final(self).active_screens == old(self).active_screens,
            final(self).widget_registry == old(self).widget_registry,
            final(self).profiles == old(self).profiles,
            final(self).active_profile == old(self).active_profile,
            final(self).running == old(self).running,
    {
        self.widget_visibility.insert(widget_id.to_owned(), visible);
    }

    /// Flip the visibility of widget `id`.
    pub fn toggle_visible(&mut self, widget_id: &str)
        ensures
            final(self).widget_visibility@ == old(self).widget_visibility@.insert(widget_id@, !old(self).visible(widget_id@)),
            final(self).config_path == old(self).config_path,
            final(self).config == old(self).config,
            final(self).css_loaded == old(self).css_loaded,
            final(self).active_screens == old(self).active_screens,
            final(self).widget_registry == old(self).widget_registry,
            final(self).profiles == old(self).profiles,
            final(self).active_profile == old(self).active_profile,
            final(self).running == old(self).running,
    {
        let current = self.is_visible(widget_id);
        self.set_visible(widget_id, !current);
    }
}

/// After `set_visible(id, v)`, `is_visible(id)` answers `v`.
pub proof fn law_set_then_visible(before: AppState, after: AppState, id: Seq<char>, v: bool)
    requires
        after.widget_visibility@ == before.widget_visibility@.insert(id, v),
    ensures
        after.visible(id) == v,
{
}

/// Setting (or toggling) widget `id` leaves the visibility of every other widget unchanged.
pub proof fn law_visibility_only_target(before: AppState, after: AppState, id: Seq<char>, v: bool, other: Seq<char>)
    requires
        after.widget_visibility@ == before.widget_visibility@.insert(id, v),
        other != id,
    ensures
        after.visible(other) == before.visible(other),
{
}

/// Toggling a widget twice gives back its visibility.
pub proof fn law_toggle_twice(s0: AppState, s1: AppState, s2: AppState, id: Seq<char>)
    requires
        s1.widget_visibility@ == s0.widget_visibility@.insert(id, !s0.visible(id)),
        s2.widget_visibility@ == s1.widget_visibility@.insert(id, !s1.visible(id)),
    ensures
        s2.visible(id) == s0.visible(id),
{
}

/// A widget nobody has shown, hidden or toggled is visible.
pub proof fn law_visible_by_default(s: AppState, id: Seq<char>)
    requires
        !s.widget_visibility@.contains_key(id),
    ensures
        s.visible(id),
{
}

} // verus!
