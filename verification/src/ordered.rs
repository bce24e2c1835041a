//! The insertion-ordered maps (`indexmap::IndexMap`) the engine keeps, with
//! the contracts of the `IndexMap` methods it calls.
use vstd::prelude::*;
use indexmap::IndexMap;
use crate::config::schema::ScreenConfig;
use crate::widgets::{VarDef, WidgetDefinition};

verus! {

#[verifier::external_type_specification]
#[verifier::external_body]
#[verifier::reject_recursive_types(K)]
#[verifier::reject_recursive_types(V)]
#[verifier::reject_recursive_types(S)]
pub struct ExIndexMap<K, V, S>(IndexMap<K, V, S>);

/// Position of key `k` in `s`, or `s.len()` when absent.
pub open spec fn key_pos<V>(s: Seq<(Seq<char>, V)>, k: Seq<char>) -> nat
    decreases s.len(),
{
    if s.len() == 0 {
        0
    } else if s[0].0 == k {
        0
    } else {
        1 + key_pos(s.drop_first(), k)
    }
}

pub proof fn lemma_key_pos<V>(s: Seq<(Seq<char>, V)>, k: Seq<char>)
    ensures
        key_pos(s, k) <= s.len(),
        forall|j: int| 0 <= j < key_pos(s, k) ==> (#[trigger] s[j]).0 != k,
        key_pos(s, k) < s.len() ==> s[key_pos(s, k) as int].0 == k,
    decreases s.len(),
{
    if s.len() > 0 && s[0].0 != k {
        lemma_key_pos(s.drop_first(), k);
        assert forall|j: int| 0 <= j < key_pos(s, k) implies (#[trigger] s[j]).0 != k by {
            if j > 0 {
                assert(s[j] == s.drop_first()[j - 1]);
            }
        }
    }
}

/// `IndexMap::insert`: an existing key keeps its place and gets the new value;
/// a new key goes last.
pub open spec fn ordered_insert<V>(s: Seq<(Seq<char>, V)>, k: Seq<char>, v: V) -> Seq<(Seq<char>, V)> {
    let p = key_pos(s, k);
    if p < s.len() {
        s.update(p as int, (k, v))
    } else {
        s.push((k, v))
    }
}

/// The value of key `k` in `s`, if any.
pub open spec fn ordered_get<V>(s: Seq<(Seq<char>, V)>, k: Seq<char>) -> Option<V> {
    let p = key_pos(s, k);
    if p < s.len() {
        Some(s[p as int].1)
    } else {
        None
    }
}

/// Keys of `s` are pairwise distinct.
pub open spec fn keys_distinct<V>(s: Seq<(Seq<char>, V)>) -> bool {
    forall|i: int, j: int| 0 <= i < j < s.len() ==> (#[trigger] s[i]).0 != (#[trigger] s[j]).0
}

pub proof fn lemma_ordered_insert_distinct<V>(s: Seq<(Seq<char>, V)>, k: Seq<char>, v: V)
    requires
        keys_distinct(s),
    ensures
        keys_distinct(ordered_insert(s, k, v)),
{
    lemma_key_pos(s, k);
    let r = ordered_insert(s, k, v);
    assert forall|i: int, j: int| 0 <= i < j < r.len() implies (#[trigger] r[i]).0 != (#[trigger] r[j]).0 by {
        if key_pos(s, k) < s.len() {
            assert(s[i].0 != s[j].0);
        } else {
            if j < s.len() {
                assert(s[i].0 != s[j].0);
            }
        }
    }
}

// ---- IndexMap<String, WidgetDefinition> -------------------------------------

/// The (name, definition) pairs of a definition map, in order.
pub uninterp spec fn def_entries(m: IndexMap<String, WidgetDefinition>) -> Seq<(Seq<char>, WidgetDefinition)>;

/// `IndexMap::new`: an empty map.
#[verifier::external_body]
pub(crate) fn def_map_new() -> (m: IndexMap<String, WidgetDefinition>)
    ensures
        def_entries(m) == Seq::<(Seq<char>, WidgetDefinition)>::empty(),
{
    IndexMap::new()
}

/// `IndexMap::insert` (its documentation: an existing key keeps its place and
/// gets the new value; a new key goes last).
#[verifier::external_body]
pub(crate) fn def_map_insert(m: &mut IndexMap<String, WidgetDefinition>, k: String, v: WidgetDefinition)
    ensures
        def_entries(*final(m)) == ordered_insert(def_entries(*old(m)), k@, v),
{
    m.insert(k, v);
}

/// `IndexMap::get`: the value stored under `k`.
#[verifier::external_body]
pub(crate) fn def_map_get<'a>(m: &'a IndexMap<String, WidgetDefinition>, k: &str) -> (r: Option<&'a WidgetDefinition>)
    ensures
        match r {
            Some(v) => ordered_get(def_entries(*m), k@) == Some(*v),
            None => ordered_get(def_entries(*m), k@) is None,
        },
{
    m.get(k)
}

/// `IndexMap::len`.
#[verifier::external_body]
pub(crate) fn def_map_len(m: &IndexMap<String, WidgetDefinition>) -> (n: usize)
    ensures
        n == def_entries(*m).len(),
{
    m.len()
}

/// `IndexMap::get_index`: the pair at position `i`.
#[verifier::external_body]
pub(crate) fn def_map_get_index<'a>(m: &'a IndexMap<String, WidgetDefinition>, i: usize) -> (r: Option<(&'a String, &'a WidgetDefinition)>)
    ensures
        match r {
            Some((k, v)) => i < def_entries(*m).len() && k@ == def_entries(*m)[i as int].0 && *v == def_entries(*m)[i as int].1,
            None => i >= def_entries(*m).len(),
        },
{
    m.get_index(i)
}

// ---- IndexMap<String, VarDef> ------------------------------------------------

/// The (name, variable) pairs of a variable map, in order.
pub uninterp spec fn var_entries(m: IndexMap<String, VarDef>) -> Seq<(Seq<char>, VarDef)>;

/// `IndexMap::new`: an empty map.
#[verifier::external_body]
pub(crate) fn var_map_new() -> (m: IndexMap<String, VarDef>)
    ensures
        var_entries(m) == Seq::<(Seq<char>, VarDef)>::empty(),
{
    IndexMap::new()
}

/// `IndexMap::len`.
#[verifier::external_body]
pub(crate) fn var_map_len(m: &IndexMap<String, VarDef>) -> (n: usize)
    ensures
        n == var_entries(*m).len(),
{
    m.len()
}

/// `IndexMap::get_index`: the pair at position `i`.
#[verifier::external_body]
pub(crate) fn var_map_get_index<'a>(m: &'a IndexMap<String, VarDef>, i: usize) -> (r: Option<(&'a String, &'a VarDef)>)
    ensures
        match r {
            Some((k, v)) => i < var_entries(*m).len() && k@ == var_entries(*m)[i as int].0 && *v == var_entries(*m)[i as int].1,
            None => i >= var_entries(*m).len(),
        },
{
    m.get_index(i)
}

// ---- IndexMap<String, ScreenConfig> -------------------------------------------

/// The (name, screen) pairs of a screen map, in order.
pub uninterp spec fn screen_entries(m: IndexMap<String, ScreenConfig>) -> Seq<(Seq<char>, ScreenConfig)>;

/// `IndexMap::new`: an empty map.
#[verifier::external_body]
pub(crate) fn screen_map_new() -> (m: IndexMap<String, ScreenConfig>)
    ensures
        screen_entries(m) == Seq::<(Seq<char>, ScreenConfig)>::empty(),
{
    IndexMap::new()
}

/// `IndexMap::len`.
#[verifier::external_body]
pub(crate) fn screen_map_len(m: &IndexMap<String, ScreenConfig>) -> (n: usize)
    ensures
        n == screen_entries(*m).len(),
{
    m.len()
}

/// `IndexMap::get_index`: the pair at position `i`.
#[verifier::external_body]
pub(crate) fn screen_map_get_index<'a>(m: &'a IndexMap<String, ScreenConfig>, i: usize) -> (r: Option<(&'a String, &'a ScreenConfig)>)
    ensures
        match r {
            Some((k, v)) => i < screen_entries(*m).len() && k@ == screen_entries(*m)[i as int].0 && *v == screen_entries(*m)[i as int].1,
            None => i >= screen_entries(*m).len(),
        },
{
    m.get_index(i)
}

} // verus!
