//! Variable placeholders in widget templates: `{name}`, where `name` is an
//! identifier (an ASCII letter or `_`, then ASCII letters, digits or `_`).
//! Interpolation replaces each placeholder, left to right, by the variable's
//! value (empty when the variable is unset); everything else is copied.
use vstd::prelude::*;
use crate::strmap::StrMap;
use crate::text::{push_chars, string_of, string_push, to_chars};

verus! {

pub open spec fn is_ident_start(c: char) -> bool {
    ('a' <= c && c <= 'z') || ('A' <= c && c <= 'Z') || c == '_'
}

pub open spec fn is_ident_char(c: char) -> bool {
    is_ident_start(c) || ('0' <= c && c <= '9')
}

/// Length of the run of identifier characters of `s` starting at `i`.
pub open spec fn ident_run(s: Seq<char>, i: int) -> nat
    decreases s.len() - i,
{
    if 0 <= i < s.len() && is_ident_char(s[i]) {
        1 + ident_run(s, i + 1)
    } else {
        0
    }
}

/// When a placeholder `{name}` starts at `i`, the index just past its `}`.
pub open spec fn placeholder_end(s: Seq<char>, i: int) -> Option<int> {
    if 0 <= i && i + 1 < s.len() && s[i] == '{' && is_ident_start(s[i + 1]) {
        let j = i + 1 + ident_run(s, i + 1);
        if j < s.len() && s[j] == '}' {
            Some(j + 1)
        } else {
            None
        }
    } else {
        None
    }
}

/// The value a placeholder for `name` is replaced by.
pub open spec fn value_of(vars: Map<Seq<char>, String>, name: Seq<char>) -> Seq<char> {
    if vars.contains_key(name) {
        vars[name]@
    } else {
        Seq::empty()
    }
}

/// `s[i..]` with its placeholders replaced by the values in `vars`.
pub open spec fn interp_from(s: Seq<char>, i: int, vars: Map<Seq<char>, String>) -> Seq<char>
    decreases s.len() - i,
{
    if i < 0 || i >= s.len() {
        Seq::empty()
    } else {
        match placeholder_end(s, i) {
            Some(e) => if e > i {
                value_of(vars, s.subrange(i + 1, e - 1)) + interp_from(s, e, vars)
            } else {
                Seq::empty()
            },
            None => seq![s[i]] + interp_from(s, i + 1, vars),
        }
    }
}

/// `s` with its placeholders replaced by the values in `vars`.
pub open spec fn interpolated(s: Seq<char>, vars: Map<Seq<char>, String>) -> Seq<char> {
    interp_from(s, 0, vars)
}

/// The names of the placeholders of `s[i..]`, in order (with repetitions).
pub open spec fn names_from(s: Seq<char>, i: int) -> Seq<Seq<char>>
    decreases s.len() - i,
{
    if i < 0 || i >= s.len() {
        Seq::empty()
    } else {
        match placeholder_end(s, i) {
            Some(e) => if e > i {
                seq![s.subrange(i + 1, e - 1)] + names_from(s, e)
            } else {
                Seq::empty()
            },
            None => names_from(s, i + 1),
        }
    }
}

/// The names of the placeholders of `s`, in order (with repetitions).
pub open spec fn placeholder_names(s: Seq<char>) -> Seq<Seq<char>> {
    names_from(s, 0)
}

proof fn lemma_ident_run(s: Seq<char>, i: int, j: int)
    requires
        0 <= i <= j <= s.len(),
        forall|k: int| i <= k < j ==> is_ident_char(#[trigger] s[k]),
    ensures
        ident_run(s, i) == (j - i) + ident_run(s, j),
    decreases j - i,
{
    if i < j {
        lemma_ident_run(s, i + 1, j);
    }
}

fn ident_char(c: char) -> (b: bool)
    ensures
        b == is_ident_char(c),
{
    ('a' <= c && c <= 'z') || ('A' <= c && c <= 'Z') || c == '_' || ('0' <= c && c <= '9')
}

/// The placeholder starting at `i` in `v`, if any: the index just past its `}`.
fn placeholder_at(v: &Vec<char>, i: usize) -> (r: Option<usize>)
    requires
        i < v.len(),
    ensures
        match r {
            Some(e) => placeholder_end(v@, i as int) == Some(e as int) && i + 3 <= e <= v.len(),
            None => placeholder_end(v@, i as int) is None,
        },
{
    if !(i + 1 < v.len() && v[i] == '{') {
        return None;
    }
    let c = v[i + 1];
    if !(('a' <= c && c <= 'z') || ('A' <= c && c <= 'Z') || c == '_') {
        return None;
    }
    let mut j = i + 1;
    while j < v.len() && ident_char(v[j])
        invariant
            i + 1 <= j <= v.len(),
            forall|k: int| i + 1 <= k < j ==> is_ident_char(#[trigger] v@[k]),
        decreases v.len() - j,
    {
        j = j + 1;
    }
    proof {
        lemma_ident_run(v@, i + 1, j as int);
        assert(ident_run(v@, j as int) == 0);
    }
    if j < v.len() && v[j] == '}' {
        Some(j + 1)
    } else {
        None
    }
}

/// `template` with each `{name}` placeholder replaced by the value of `name`
/// in `vars` (the empty string for an unset variable).
pub fn interpolate(template: &str, vars: &StrMap<String>) -> (r: String)
    ensures
        r@ == interpolated(template@, vars@),
{
    let v = to_chars(template);
    let mut out = String::new();
    let mut i: usize = 0;
    while i < v.len()
        invariant
            v@ == template@,
            i <= v@.len(),
            interp_from(v@, 0, vars@) == out@ + interp_from(v@, i as int, vars@),
        decreases v.len() - i,
    {
        match placeholder_at(&v, i) {
            Some(e) => {
                let name = string_of(&v, i + 1, e - 1);
                let ghost before = out@;
                match vars.get(name.as_str()) {
                    Some(val) => {
                        let cv = to_chars(val.as_str());
                        push_chars(&mut out, &cv);
                    },
                    None => {},
                }
                assert(out@ == before + value_of(vars@, v@.subrange(i + 1, e - 1)));
                assert(interp_from(v@, i as int, vars@) == value_of(vars@, v@.subrange(i + 1, e - 1))
                    + interp_from(v@, e as int, vars@));
                assert(interp_from(v@, 0, vars@) == out@ + interp_from(v@, e as int, vars@));
                i = e;
            },
            None => {
                let ghost before = out@;
                string_push(&mut out, v[i]);
                assert(interp_from(v@, i as int, vars@) == seq![v@[i as int]] + interp_from(v@, i + 1, vars@));
                assert(interp_from(v@, 0, vars@) == out@ + interp_from(v@, i + 1, vars@));
                i = i + 1;
            },
        }
    }
    assert(out@ =~= out@ + interp_from(v@, i as int, vars@));
    out
}

/// The names of the placeholders of `template`, in order (with repetitions).
pub fn placeholders(template: &str) -> (r: Vec<String>)
    ensures
        crate::text::views(r@) == placeholder_names(template@),
{
    let v = to_chars(template);
    let mut out: Vec<String> = Vec::new();
    let mut i: usize = 0;
    while i < v.len()
        invariant
            v@ == template@,
            i <= v@.len(),
            names_from(v@, 0) == crate::text::views(out@) + names_from(v@, i as int),
        decreases v.len() - i,
    {
        match placeholder_at(&v, i) {
            Some(e) => {
                let ghost before = crate::text::views(out@);
                let name = string_of(&v, i + 1, e - 1);
                out.push(name);
                assert(crate::text::views(out@) =~= before + seq![v@.subrange(i + 1, e - 1)]);
                assert(names_from(v@, i as int) == seq![v@.subrange(i + 1, e - 1)] + names_from(v@, e as int));
                assert(names_from(v@, 0) =~= crate::text::views(out@) + names_from(v@, e as int));
                i = e;
            },
            None => {
                assert(names_from(v@, i as int) == names_from(v@, i + 1));
                i = i + 1;
            },
        }
    }
    assert(crate::text::views(out@) =~= crate::text::views(out@) + names_from(v@, i as int));
    out
}

/// Whether `template` holds at least one placeholder.
pub fn has_placeholder(template: &str) -> (b: bool)
    ensures
        b == (placeholder_names(template@).len() > 0),
{
    let names = placeholders(template);
    names.len() > 0
}

/// A template without placeholders interpolates to itself, whatever the variables.
pub proof fn law_interpolate_plain(s: Seq<char>, vars: Map<Seq<char>, String>)
    requires
        placeholder_names(s).len() == 0,
    ensures
        interpolated(s, vars) == s,
{
    lemma_plain_from(s, 0, vars);
    assert(s.subrange(0, s.len() as int) =~= s);
}

proof fn lemma_plain_from(s: Seq<char>, i: int, vars: Map<Seq<char>, String>)
    requires
        0 <= i <= s.len(),
        names_from(s, i).len() == 0,
    ensures
        interp_from(s, i, vars) == s.subrange(i, s.len() as int),
    decreases s.len() - i,
{
    if i < s.len() {
        match placeholder_end(s, i) {
            Some(e) => {
                if e > i {
                    assert(names_from(s, i).len() > 0);
                }
            },
            None => {
                lemma_plain_from(s, i + 1, vars);
                assert(s.subrange(i, s.len() as int) =~= seq![s[i]] + s.subrange(i + 1, s.len() as int));
            },
        }
    } else {
        assert(s.subrange(i, s.len() as int) =~= Seq::<char>::empty());
    }
}

/// Interpolation only reads the variables a template names: two variable maps
/// that agree on those names give the same text.
pub proof fn law_interpolate_reads_named(s: Seq<char>, a: Map<Seq<char>, String>, b: Map<Seq<char>, String>)
    requires
        forall|k: int| 0 <= k < placeholder_names(s).len() ==> #[trigger] value_of(a, placeholder_names(s)[k]) == value_of(b, placeholder_names(s)[k]),
    ensures
        interpolated(s, a) == interpolated(s, b),
{
    assert forall|k: int| 0 <= k < names_from(s, 0).len() implies #[trigger] value_of(a, names_from(s, 0)[k]) == value_of(b, names_from(s, 0)[k]) by {
        assert(value_of(a, placeholder_names(s)[k]) == value_of(b, placeholder_names(s)[k]));
    }
    lemma_reads_named_from(s, 0, a, b);
}

proof fn lemma_reads_named_from(s: Seq<char>, i: int, a: Map<Seq<char>, String>, b: Map<Seq<char>, String>)
    requires
        0 <= i,
        forall|k: int| 0 <= k < names_from(s, i).len() ==> #[trigger] value_of(a, names_from(s, i)[k]) == value_of(b, names_from(s, i)[k]),
    ensures
        interp_from(s, i, a) == interp_from(s, i, b),
    decreases s.len() - i,
{
    if i < s.len() {
        match placeholder_end(s, i) {
            Some(e) => {
                if e > i {
                    let n = names_from(s, i);
                    assert(n == seq![s.subrange(i + 1, e - 1)] + names_from(s, e));
                    assert(value_of(a, n[0]) == value_of(b, n[0]));
                    assert forall|k: int| 0 <= k < names_from(s, e).len() implies #[trigger] value_of(a, names_from(s, e)[k]) == value_of(b, names_from(s, e)[k]) by {
                        assert(n[k + 1] == names_from(s, e)[k]);
                        assert(value_of(a, n[k + 1]) == value_of(b, n[k + 1]));
                    }
                    lemma_reads_named_from(s, e, a, b);
                }
            },
            None => {
                assert(names_from(s, i) == names_from(s, i + 1));
                lemma_reads_named_from(s, i + 1, a, b);
            },
        }
    }
}

} // verus!
