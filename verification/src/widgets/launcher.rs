//! Desktop-entry (`.desktop` file) parsing and the launcher's entry list.
use vstd::prelude::*;
use crate::text::{
    contains, lowercase_of, split_whitespace, split_ws, str_contains, to_lowercase,
    str_eq,
    eq_ignore_ascii_case, eq_ignore_ascii_case_exec, lines, occurs_at_exec, push_str, replace, split_char,
    split_lines, split_on_char, split_once, split_once_char, str_replace, string_from, to_chars, trim,
    trim_str, views,
};

verus! {

/// A parsed `.desktop` file entry.
#[derive(Debug, Clone)]
pub struct DesktopEntry {
    pub name: String,
    pub command: String,
    pub icon: String,
    pub comment: String,
    pub categories: Vec<String>,
    pub no_display: bool,
}

/// Mathematical model of a [`DesktopEntry`].
pub struct DesktopEntryView {
    pub name: Seq<char>,
    pub command: Seq<char>,
    pub icon: Seq<char>,
    pub comment: Seq<char>,
    pub categories: Seq<Seq<char>>,
    pub no_display: bool,
}

impl View for DesktopEntry {
    type V = DesktopEntryView;

    open spec fn view(&self) -> DesktopEntryView {
        DesktopEntryView {
            name: self.name@,
            command: self.command@,
            icon: self.icon@,
            comment: self.comment@,
            categories: views(self.categories@),
            no_display: self.no_display,
        }
    }
}

/// The field-code letters removed from `Exec` values (`%f`, `%u`, ...), in order.
pub open spec fn field_code_letters() -> Seq<char> {
    seq!['f', 'u', 'F', 'U', 'i', 'c', 'k', 'd', 'D', 'n', 'N', 'v', 'm']
}

/// `s` with the first `k` field codes removed, one code after the other.
pub open spec fn strip_field_codes(s: Seq<char>, k: nat) -> Seq<char>
    decreases k,
{
    if k == 0 {
        s
    } else {
        replace(
            strip_field_codes(s, (k - 1) as nat),
            seq!['%', field_code_letters()[k - 1]],
            seq![],
        )
    }
}

/// The cleaned `Exec` value: field codes removed, then trimmed.
pub open spec fn clean_exec_spec(s: Seq<char>) -> Seq<char> {
    trim(strip_field_codes(s, 13))
}

/// Remove desktop file field codes (`%f`, `%u`, `%F`, `%U`, ...) from an `Exec` value.
pub fn clean_exec(exec: &str) -> (r: String)
    ensures
        r@ == clean_exec_spec(exec@),
{
    let letters: Vec<char> = vec!['f', 'u', 'F', 'U', 'i', 'c', 'k', 'd', 'D', 'n', 'N', 'v', 'm'];
    assert(letters@ =~= field_code_letters());
    let mut result = String::new();
    push_str(&mut result, exec);
    assert(result@ =~= exec@);
    let mut k: usize = 0;
    while k < letters.len()
        invariant
            k <= letters.len(),
            letters@ == field_code_letters(),
            result@ == strip_field_codes(exec@, k as nat),
        decreases letters.len() - k,
    {
        let pv: Vec<char> = vec!['%', letters[k]];
        let pat = string_from(&pv);
        assert(pat@ =~= seq!['%', field_code_letters()[k as int]]);
        result = str_replace(result.as_str(), pat.as_str(), "");
        proof {
            reveal_strlit("");
            assert(""@ =~= Seq::<char>::empty());
        }
        k = k + 1;
    }
    trim_str(result.as_str())
}

pub open spec fn lit_desktop_entry() -> Seq<char> {
    seq!['[', 'D', 'e', 's', 'k', 't', 'o', 'p', ' ', 'E', 'n', 't', 'r', 'y', ']']
}

pub open spec fn lit_name() -> Seq<char> {
    seq!['N', 'a', 'm', 'e']
}

pub open spec fn lit_exec() -> Seq<char> {
    seq!['E', 'x', 'e', 'c']
}

pub open spec fn lit_icon() -> Seq<char> {
    seq!['I', 'c', 'o', 'n']
}

pub open spec fn lit_comment() -> Seq<char> {
    seq!['C', 'o', 'm', 'm', 'e', 'n', 't']
}

pub open spec fn lit_categories() -> Seq<char> {
    seq!['C', 'a', 't', 'e', 'g', 'o', 'r', 'i', 'e', 's']
}

pub open spec fn lit_no_display() -> Seq<char> {
    seq!['N', 'o', 'D', 'i', 's', 'p', 'l', 'a', 'y']
}

pub open spec fn lit_type() -> Seq<char> {
    seq!['T', 'y', 'p', 'e']
}

pub open spec fn lit_application() -> Seq<char> {
    seq!['A', 'p', 'p', 'l', 'i', 'c', 'a', 't', 'i', 'o', 'n']
}

pub open spec fn lit_true() -> Seq<char> {
    seq!['t', 'r', 'u', 'e']
}

/// State while reading a `.desktop` file line by line.
pub struct DesktopScan {
    pub in_section: bool,
    pub rejected: bool,
    pub entry: DesktopEntryView,
}

pub open spec fn empty_scan() -> DesktopScan {
    DesktopScan {
        in_section: false,
        rejected: false,
        entry: DesktopEntryView {
            name: seq![],
            command: seq![],
            icon: seq![],
            comment: seq![],
            categories: seq![],
            no_display: false,
        },
    }
}

/// Effect of one `key=value` pair inside the `[Desktop Entry]` group.
pub open spec fn desktop_key(st: DesktopScan, k: Seq<char>, v: Seq<char>) -> DesktopScan {
    let e = st.entry;
    if k == lit_name() {
        DesktopScan { entry: DesktopEntryView { name: v, ..e }, ..st }
    } else if k == lit_exec() {
        DesktopScan { entry: DesktopEntryView { command: clean_exec_spec(v), ..e }, ..st }
    } else if k == lit_icon() {
        DesktopScan { entry: DesktopEntryView { icon: v, ..e }, ..st }
    } else if k == lit_comment() {
        DesktopScan { entry: DesktopEntryView { comment: v, ..e }, ..st }
    } else if k == lit_categories() {
        DesktopScan { entry: DesktopEntryView { categories: split_char(v, ';'), ..e }, ..st }
    } else if k == lit_no_display() {
        DesktopScan {
            entry: DesktopEntryView { no_display: eq_ignore_ascii_case(v, lit_true()), ..e },
            ..st
        }
    } else if k == lit_type() && v != lit_application() {
        DesktopScan { rejected: true, ..st }
    } else {
        st
    }
}

/// Effect of one raw line of a `.desktop` file.
pub open spec fn desktop_step(st: DesktopScan, raw: Seq<char>) -> DesktopScan {
    let line = trim(raw);
    if st.rejected {
        st
    } else if line == lit_desktop_entry() {
        DesktopScan { in_section: true, ..st }
    } else if line.len() > 0 && line[0] == '[' {
        DesktopScan { in_section: false, ..st }
    } else if !st.in_section {
        st
    } else {
        match split_once(line, '=') {
            Some((k, v)) => desktop_key(st, trim(k), trim(v)),
            None => st,
        }
    }
}

/// The scan state after reading `ls` in order.
pub open spec fn desktop_scan(ls: Seq<Seq<char>>) -> DesktopScan
    decreases ls.len(),
{
    if ls.len() == 0 {
        empty_scan()
    } else {
        desktop_step(desktop_scan(ls.drop_last()), ls.last())
    }
}

/// What parsing a `.desktop` file's contents gives: nothing when a `Type` other
/// than `Application` was seen in the group or no `Name` was given.
pub open spec fn parse_desktop_spec(content: Seq<char>) -> Option<DesktopEntryView> {
    let st = desktop_scan(lines(content));
    if st.rejected || st.entry.name.len() == 0 {
        None
    } else {
        Some(st.entry)
    }
}

fn eq_lit(v: &Vec<char>, lit: &Vec<char>) -> (b: bool)
    ensures
        b == (v@ == lit@),
{
    if v.len() != lit.len() {
        return false;
    }
    let b = occurs_at_exec(v, lit, 0);
    assert(v@.subrange(0, lit@.len() as int) =~= v@);
    b
}

/// Parse the contents of a single `.desktop` file.
pub fn parse_desktop_file(content: &str) -> (r: Option<DesktopEntry>)
    ensures
        match r {
            Some(e) => parse_desktop_spec(content@) == Some(e@),
            None => parse_desktop_spec(content@) is None,
        },
{
    let ls = split_lines(content);
    let header: Vec<char> = vec![
        '[',
        'D',
        'e',
        's',
        'k',
        't',
        'o',
        'p',
        ' ',
        'E',
        'n',
        't',
        'r',
        'y',
        ']',
    ];
    let k_name: Vec<char> = vec!['N', 'a', 'm', 'e'];
    let k_exec: Vec<char> = vec!['E', 'x', 'e', 'c'];
    let k_icon: Vec<char> = vec!['I', 'c', 'o', 'n'];
    let k_comment: Vec<char> = vec!['C', 'o', 'm', 'm', 'e', 'n', 't'];
    let k_categories: Vec<char> = vec!['C', 'a', 't', 'e', 'g', 'o', 'r', 'i', 'e', 's'];
    let k_no_display: Vec<char> = vec!['N', 'o', 'D', 'i', 's', 'p', 'l', 'a', 'y'];
    let k_type: Vec<char> = vec!['T', 'y', 'p', 'e'];
    let k_application: Vec<char> = vec![
        'A',
        'p',
        'p',
        'l',
        'i',
        'c',
        'a',
        't',
        'i',
        'o',
        'n',
    ];
    proof {
        assert(header@ =~= lit_desktop_entry());
        assert(k_name@ =~= lit_name());
        assert(k_exec@ =~= lit_exec());
        assert(k_icon@ =~= lit_icon());
        assert(k_comment@ =~= lit_comment());
        assert(k_categories@ =~= lit_categories());
        assert(k_no_display@ =~= lit_no_display());
        assert(k_type@ =~= lit_type());
        assert(k_application@ =~= lit_application());
    }
    let mut in_section = false;
    let mut name = String::new();
    let mut command = String::new();
    let mut icon = String::new();
    let mut comment = String::new();
    let mut categories: Vec<String> = Vec::new();
    let mut no_display = false;
    let mut i: usize = 0;
    assert(views(ls@).take(0) =~= Seq::<Seq<char>>::empty());
    assert(views(categories@) =~= Seq::<Seq<char>>::empty());
    assert(desktop_scan(views(ls@).take(0)) == empty_scan());
    while i < ls.len()
        invariant
            i <= ls.len(),
            views(ls@) == lines(content@),
            header@ == lit_desktop_entry(),
            k_name@ == lit_name(),
            k_exec@ == lit_exec(),
            k_icon@ == lit_icon(),
            k_comment@ == lit_comment(),
            k_categories@ == lit_categories(),
            k_no_display@ == lit_no_display(),
            k_type@ == lit_type(),
            k_application@ == lit_application(),
            desktop_scan(views(ls@).take(i as int)) == (DesktopScan {
                in_section,
                rejected: false,
                entry: DesktopEntryView {
                    name: name@,
                    command: command@,
                    icon: icon@,
                    comment: comment@,
                    categories: views(categories@),
                    no_display,
                },
            }),
        decreases ls.len() - i,
    {
        let ghost prev = desktop_scan(views(ls@).take(i as int));
        let ghost raw = views(ls@)[i as int];
        proof {
            assert(views(ls@).take(i + 1).drop_last() =~= views(ls@).take(i as int));
            assert(views(ls@).take(i + 1).last() == raw);
        }
        let line = trim_str(ls[i].as_str());
        let lv = to_chars(line.as_str());
        if eq_lit(&lv, &header) {
            in_section = true;
        } else if lv.len() > 0 && lv[0] == '[' {
            in_section = false;
        } else if !in_section {
        } else {
            match split_once_char(line.as_str(), '=') {
                Some((key, value)) => {
                    let k = trim_str(key.as_str());
                    let v = trim_str(value.as_str());
                    let kv = to_chars(k.as_str());
                    if eq_lit(&kv, &k_name) {
                        name = v;
                    } else if eq_lit(&kv, &k_exec) {
                        command = clean_exec(v.as_str());
                    } else if eq_lit(&kv, &k_icon) {
                        icon = v;
                    } else if eq_lit(&kv, &k_comment) {
                        comment = v;
                    } else if eq_lit(&kv, &k_categories) {
                        categories = split_on_char(v.as_str(), ';');
                    } else if eq_lit(&kv, &k_no_display) {
                        let t = "true";
                        proof {
                            reveal_strlit("true");
                            assert(t@ =~= lit_true());
                        }
                        no_display = eq_ignore_ascii_case_exec(v.as_str(), t);
                    } else if eq_lit(&kv, &k_type) {
                        let vv = to_chars(v.as_str());
                        if !eq_lit(&vv, &k_application) {
                            proof {
                                                            lemma_scan_rejected_sticky(views(ls@), i as int + 1);
                                assert(views(ls@).take(ls@.len() as int) =~= views(ls@));
                            }
                            return None;
                        }
                    }
                },
                None => {},
            }
        }
        i = i + 1;
    }
    assert(views(ls@).take(i as int) =~= views(ls@));
    if name.as_str().is_empty() {
        return None;
    }
    Some(DesktopEntry { name, command, icon, comment, categories, no_display })
}

proof fn lemma_scan_rejected_sticky(ls: Seq<Seq<char>>, k: int)
    requires
        0 <= k <= ls.len(),
        desktop_scan(ls.take(k)).rejected,
    ensures
        desktop_scan(ls).rejected,
    decreases ls.len() - k,
{
    if k < ls.len() {
        assert(ls.take(k + 1).drop_last() =~= ls.take(k));
        lemma_scan_rejected_sticky(ls, k + 1);
    } else {
        assert(ls.take(k) =~= ls);
    }
}

} // verus!

verus! {

/// Lexicographic order of char sequences by code point (the order of `String`'s
/// `Ord`, which compares UTF-8 bytes and so orders by code point).
pub open spec fn lex_lt(a: Seq<char>, b: Seq<char>) -> bool
    decreases a.len(),
{
    if a.len() == 0 {
        b.len() > 0
    } else if b.len() == 0 {
        false
    } else if a[0] < b[0] {
        true
    } else if a[0] > b[0] {
        false
    } else {
        lex_lt(a.drop_first(), b.drop_first())
    }
}

pub proof fn lemma_lex_irreflexive(a: Seq<char>)
    ensures
        !lex_lt(a, a),
    decreases a.len(),
{
    if a.len() > 0 {
        lemma_lex_irreflexive(a.drop_first());
    }
}

pub proof fn lemma_lex_trichotomy(a: Seq<char>, b: Seq<char>)
    ensures
        lex_lt(a, b) || lex_lt(b, a) || a == b,
        !(lex_lt(a, b) && lex_lt(b, a)),
    decreases a.len(),
{
    if a.len() > 0 && b.len() > 0 {
        lemma_lex_trichotomy(a.drop_first(), b.drop_first());
        if a.drop_first() == b.drop_first() && a[0] == b[0] {
            assert(a =~= seq![a[0]] + a.drop_first());
            assert(b =~= seq![b[0]] + b.drop_first());
        }
    } else if a.len() == 0 && b.len() == 0 {
        assert(a =~= b);
    }
}

pub proof fn lemma_lex_transitive(a: Seq<char>, b: Seq<char>, c: Seq<char>)
    requires
        lex_lt(a, b),
        lex_lt(b, c),
    ensures
        lex_lt(a, c),
    decreases a.len(),
{
    if a.len() > 0 && b.len() > 0 && c.len() > 0 {
        if a[0] == b[0] && b[0] == c[0] {
            lemma_lex_transitive(a.drop_first(), b.drop_first(), c.drop_first());
        }
    }
}

/// `a < b` on strings.
pub fn lex_lt_exec(a: &str, b: &str) -> (r: bool)
    ensures
        r == lex_lt(a@, b@),
{
    let va = to_chars(a);
    let vb = to_chars(b);
    let mut i: usize = 0;
    assert(va@.skip(0) =~= va@);
    assert(vb@.skip(0) =~= vb@);
    while i < va.len() && i < vb.len() && va[i] == vb[i]
        invariant
            i <= va.len(),
            i <= vb.len(),
            va@ == a@,
            vb@ == b@,
            lex_lt(a@, b@) == lex_lt(va@.skip(i as int), vb@.skip(i as int)),
        decreases va.len() - i,
    {
        proof {
            assert(va@.skip(i as int).drop_first() =~= va@.skip(i + 1));
            assert(vb@.skip(i as int).drop_first() =~= vb@.skip(i + 1));
        }
        i = i + 1;
    }
    if i == va.len() {
        i < vb.len()
    } else if i == vb.len() {
        false
    } else {
        assert(va@.skip(i as int)[0] == va@[i as int]);
        assert(vb@.skip(i as int)[0] == vb@[i as int]);
        va[i] < vb[i]
    }
}

/// Whether a parsed entry is offered by the launcher.
pub open spec fn offered(e: DesktopEntryView) -> bool {
    !e.no_display && e.command.len() > 0
}

/// Entry `k` of `s` is the first with its name.
pub open spec fn first_of_name(s: Seq<DesktopEntryView>, k: int) -> bool {
    forall|j: int| 0 <= j < k ==> #[trigger] s[j].name != s[k].name
}

pub open spec fn entry_views(v: Seq<DesktopEntry>) -> Seq<DesktopEntryView> {
    v.map_values(|e: DesktopEntry| e@)
}

/// `e` is the first entry of its name in `s`.
pub open spec fn first_entry_in(s: Seq<DesktopEntryView>, e: DesktopEntryView) -> bool {
    exists|k: int| 0 <= k < s.len() && #[trigger] s[k] == e && first_of_name(s, k)
}

/// Some entry of `r` has name `n`.
pub open spec fn has_name(r: Seq<DesktopEntryView>, n: Seq<char>) -> bool {
    exists|i: int| 0 <= i < r.len() && #[trigger] r[i].name == n
}

/// `r` is `s` sorted by name with one entry per name: the first one `s` has
/// of that name (a stable sort by name followed by `dedup_by` on name).
pub open spec fn sorted_first_by_name(s: Seq<DesktopEntryView>, r: Seq<DesktopEntryView>) -> bool {
    &&& forall|i: int, j: int| 0 <= i < j < r.len() ==> lex_lt(#[trigger] r[i].name, #[trigger] r[j].name)
    &&& forall|i: int| 0 <= i < r.len() ==> #[trigger] first_entry_in(s, r[i])
    &&& forall|k: int| 0 <= k < s.len() ==> #[trigger] has_name(r, s[k].name)
}

pub open spec fn names_sorted(ov: Seq<DesktopEntryView>) -> bool {
    forall|i: int, j: int| 0 <= i < j < ov.len() ==> lex_lt(#[trigger] ov[i].name, #[trigger] ov[j].name)
}

pub open spec fn drawn_from(s: Seq<DesktopEntryView>, m: int, ov: Seq<DesktopEntryView>, w: Seq<int>) -> bool {
    &&& w.len() == ov.len()
    &&& forall|i: int| 0 <= i < ov.len() ==> 0 <= #[trigger] w[i] < m && s[w[i]] == ov[i] && first_of_name(s, w[i])
}

pub open spec fn covers(s: Seq<DesktopEntryView>, m: int, ov: Seq<DesktopEntryView>, c: Seq<int>) -> bool {
    &&& c.len() == m
    &&& forall|k: int| 0 <= k < m ==> 0 <= #[trigger] c[k] < ov.len() && ov[c[k]].name == s[k].name
}

proof fn lemma_dedup_insert(
    s: Seq<DesktopEntryView>,
    m: int,
    ov: Seq<DesktopEntryView>,
    w: Seq<int>,
    c: Seq<int>,
    p: int,
)
    requires
        0 <= m < s.len(),
        0 <= p <= ov.len(),
        forall|i: int| 0 <= i < p ==> lex_lt(#[trigger] ov[i].name, s[m].name),
        p < ov.len() ==> !lex_lt(ov[p].name, s[m].name) && ov[p].name != s[m].name,
        names_sorted(ov),
        drawn_from(s, m, ov, w),
        covers(s, m, ov, c),
    ensures
        names_sorted(ov.insert(p, s[m])),
        drawn_from(s, m + 1, ov.insert(p, s[m]), w.insert(p, m)),
        covers(
            s,
            m + 1,
            ov.insert(p, s[m]),
            Seq::new(m as nat, |k: int| if c[k] >= p { c[k] + 1 } else { c[k] }).push(p),
        ),
{
    let e = s[m];
    let nv = ov.insert(p, e);
    let nw = w.insert(p, m);
    let nc = Seq::new(m as nat, |k: int| if c[k] >= p { c[k] + 1 } else { c[k] }).push(p);
    if p < ov.len() {
        lemma_lex_trichotomy(e.name, ov[p].name);
    }
    assert forall|i: int| p <= i < ov.len() implies lex_lt(e.name, #[trigger] ov[i].name) by {
        if i > p {
            lemma_lex_transitive(e.name, ov[p].name, ov[i].name);
        }
    }
    assert forall|i: int| 0 <= i < ov.len() implies #[trigger] ov[i].name != e.name by {
        lemma_lex_irreflexive(e.name);
    }
    assert(first_of_name(s, m)) by {
        assert forall|j: int| 0 <= j < m implies #[trigger] s[j].name != s[m].name by {
            assert(ov[c[j]].name == s[j].name);
            assert(ov[c[j]].name != e.name);
        }
    }
    assert forall|i: int, j: int| 0 <= i < j < nv.len() implies lex_lt(#[trigger] nv[i].name, #[trigger] nv[j].name) by {
        if i < p && j == p {
        } else if i < p && j > p {
            assert(lex_lt(ov[i].name, e.name));
            assert(lex_lt(e.name, ov[j - 1].name));
            lemma_lex_transitive(ov[i].name, e.name, ov[j - 1].name);
        } else if i == p {
            assert(lex_lt(e.name, ov[j - 1].name));
        } else if i < p {
            assert(lex_lt(ov[i].name, ov[j].name));
        } else {
            assert(lex_lt(ov[i - 1].name, ov[j - 1].name));
        }
    }
    assert forall|i: int| 0 <= i < nv.len() implies 0 <= #[trigger] nw[i] < m + 1 && s[nw[i]] == nv[i] && first_of_name(s, nw[i]) by {
        if i < p {
            assert(nw[i] == w[i] && nv[i] == ov[i]);
        } else if i > p {
            assert(nw[i] == w[i - 1] && nv[i] == ov[i - 1]);
        }
    }
    assert forall|k: int| 0 <= k < m + 1 implies 0 <= #[trigger] nc[k] < nv.len() && nv[nc[k]].name == s[k].name by {
        if k < m {
            if c[k] >= p {
                assert(nv[c[k] + 1] == ov[c[k]]);
            } else {
                assert(nv[c[k]] == ov[c[k]]);
            }
        }
    }
}

proof fn lemma_dedup_done(s: Seq<DesktopEntryView>, ov: Seq<DesktopEntryView>, w: Seq<int>, c: Seq<int>)
    requires
        names_sorted(ov),
        drawn_from(s, s.len() as int, ov, w),
        covers(s, s.len() as int, ov, c),
    ensures
        sorted_first_by_name(s, ov),
{
    assert forall|i: int| 0 <= i < ov.len() implies #[trigger] first_entry_in(s, ov[i]) by {
        assert(s[w[i]] == ov[i]);
    }
    assert forall|k: int| 0 <= k < s.len() implies #[trigger] has_name(ov, s[k].name) by {
        assert(ov[c[k]].name == s[k].name);
    }
}

/// Keep the first entry of each name and sort by name (`sort_by` name, then
/// `dedup_by` name).
pub fn sort_dedup_by_name(entries: Vec<DesktopEntry>) -> (r: Vec<DesktopEntry>)
    ensures
        sorted_first_by_name(entry_views(entries@), entry_views(r@)),
{
    let ghost s = entry_views(entries@);
    let mut input = entries;
    let mut out: Vec<DesktopEntry> = Vec::new();
    let ghost mut m: int = 0;
    let ghost mut w: Seq<int> = seq![];
    let ghost mut c: Seq<int> = seq![];
    assert(entry_views(out@) =~= Seq::<DesktopEntryView>::empty());
    while input.len() > 0
        invariant
            0 <= m <= s.len(),
            s.len() == m + input@.len(),
            forall|k: int| 0 <= k < input@.len() ==> #[trigger] input@[k]@ == s[m + k],
            names_sorted(entry_views(out@)),
            drawn_from(s, m, entry_views(out@), w),
            covers(s, m, entry_views(out@), c),
        decreases input.len(),
    {
        let ghost old_in = input@;
        let ghost ov = entry_views(out@);
        let e = input.remove(0);
        assert(e@ == s[m]) by {
            assert(old_in[0]@ == s[m + 0]);
        }
        assert forall|k: int| 0 <= k < input@.len() implies #[trigger] input@[k]@ == s[m + 1 + k] by {
            assert(input@[k] == old_in[k + 1]);
            assert(old_in[k + 1]@ == s[m + (k + 1)]);
        }
        let mut p: usize = 0;
        while p < out.len() && lex_lt_exec(out[p].name.as_str(), e.name.as_str())
            invariant
                p <= out@.len(),
                ov == entry_views(out@),
                forall|i: int| 0 <= i < p ==> lex_lt(#[trigger] ov[i].name, e@.name),
            decreases out.len() - p,
        {
            assert(ov[p as int] == out@[p as int]@);
            p = p + 1;
        }
        if p < out.len() && str_eq(out[p].name.as_str(), e.name.as_str()) {
            proof {
                assert(ov[p as int] == out@[p as int]@);
                let nc = c.push(p as int);
                assert forall|k: int| 0 <= k < m + 1 implies 0 <= #[trigger] nc[k] < ov.len() && ov[nc[k]].name == s[k].name by {
                }
                assert forall|i: int| 0 <= i < ov.len() implies 0 <= #[trigger] w[i] < m + 1 && s[w[i]] == ov[i] && first_of_name(s, w[i]) by {
                }
                c = nc;
            }
        } else {
            proof {
                if p < out@.len() {
                    assert(ov[p as int] == out@[p as int]@);
                }
                lemma_dedup_insert(s, m, ov, w, c, p as int);
                w = w.insert(p as int, m);
                c = Seq::new(m as nat, |k: int| if c[k] >= p { c[k] + 1 } else { c[k] }).push(p as int);
            }
            out.insert(p, e);
            assert(entry_views(out@) =~= ov.insert(p as int, s[m]));
        }
        proof {
            m = m + 1;
        }
    }
    proof {
        lemma_dedup_done(s, entry_views(out@), w, c);
    }
    out
}

/// The entries offered by the launcher: those that are displayed and have a
/// command, sorted by name, one per name.
pub fn collect_entries(parsed: Vec<DesktopEntry>) -> (r: Vec<DesktopEntry>)
    ensures
        sorted_first_by_name(
            entry_views(parsed@).filter(|e: DesktopEntryView| offered(e)),
            entry_views(r@),
        ),
{
    let ghost orig = parsed@;
    let mut input = parsed;
    let mut kept: Vec<DesktopEntry> = Vec::new();
    let ghost mut n: int = 0;
    assert(entry_views(orig.take(0)) =~= Seq::<DesktopEntryView>::empty());
    assert(entry_views(kept@) =~= Seq::<DesktopEntryView>::empty());
    assert(orig.skip(0) =~= orig);
    while input.len() > 0
        invariant
            0 <= n <= orig.len(),
            input@ == orig.skip(n),
            entry_views(kept@) == entry_views(orig.take(n)).filter(|e: DesktopEntryView| offered(e)),
        decreases input.len(),
    {
        let e = input.remove(0);
        proof {
            assert(orig.skip(n)[0] == e);
            assert(orig.skip(n + 1) =~= orig.skip(n).remove(0));
            assert(entry_views(orig.take(n + 1)) =~= entry_views(orig.take(n)).push(e@));
            entry_views(orig.take(n)).lemma_filter_push(e@, |e: DesktopEntryView| offered(e));
        }
        if !e.no_display && !e.command.as_str().is_empty() {
            let ghost before = kept@;
            kept.push(e);
            assert(entry_views(kept@) =~= entry_views(before).push(e@));
        }
        proof {
            n = n + 1;
        }
    }
    assert(orig.take(n) =~= orig);
    sort_dedup_by_name(kept)
}

} // verus!

verus! {

/// Whether entry `e` matches the search text: `query` is lowercased and the
/// entry matches when it is empty or occurs in the lowercased name or comment.
pub open spec fn matches_query(e: DesktopEntryView, query: Seq<char>) -> bool {
    let q = lowercase_of(query);
    q.len() == 0 || contains(lowercase_of(e.name), q) || contains(lowercase_of(e.comment), q)
}

/// A search finds an entry by its name or by its description: with the
/// search text lowercased, an entry whose lowercased comment contains it
/// matches whatever its name, as does one whose lowercased name contains it;
/// the empty search matches every entry; and an entry matches only so.
pub proof fn law_search_by_name_or_description(e: DesktopEntryView, query: Seq<char>)
    ensures
        contains(lowercase_of(e.comment), lowercase_of(query)) ==> matches_query(e, query),
        contains(lowercase_of(e.name), lowercase_of(query)) ==> matches_query(e, query),
        lowercase_of(query).len() == 0 ==> matches_query(e, query),
        matches_query(e, query) ==> lowercase_of(query).len() == 0 || contains(lowercase_of(e.name), lowercase_of(query))
            || contains(lowercase_of(e.comment), lowercase_of(query)),
{
}

/// Indices of the entries shown for a search text, in order.
pub fn matching_entries(entries: &Vec<DesktopEntry>, query: &str) -> (r: Vec<usize>)
    ensures
        r@.len() <= entries@.len(),
        forall|j: int| 0 <= j < r@.len() ==> r@[j] < entries@.len(),
        forall|j: int, k: int| 0 <= j < k < r@.len() ==> r@[j] < r@[k],
        forall|i: int| 0 <= i < entries@.len() ==> (r@.contains(i as usize) <==> matches_query(#[trigger] entries@[i]@, query@)),
{
    let q = to_lowercase(query);
    let q_empty = q.as_str().is_empty();
    let mut r: Vec<usize> = Vec::new();
    let mut i: usize = 0;
    while i < entries.len()
        invariant
            i <= entries@.len(),
            q@ == lowercase_of(query@),
            q_empty == (q@.len() == 0),
            r@.len() <= i,
            forall|j: int| 0 <= j < r@.len() ==> r@[j] < i,
            forall|j: int, k: int| 0 <= j < k < r@.len() ==> r@[j] < r@[k],
            forall|t: int| 0 <= t < i ==> (r@.contains(t as usize) <==> matches_query(#[trigger] entries@[t]@, query@)),
        decreases entries.len() - i,
    {
        let e = &entries[i];
        let hit = q_empty || str_contains(to_lowercase(e.name.as_str()).as_str(), q.as_str()) || str_contains(
            to_lowercase(e.comment.as_str()).as_str(),
            q.as_str(),
        );
        let ghost old_r = r@;
        if hit {
            r.push(i);
        }
        proof {
            assert forall|t: int| 0 <= t < i + 1 implies (r@.contains(t as usize) <==> matches_query(#[trigger] entries@[t]@, query@)) by {
                if t < i {
                    if r@.contains(t as usize) && !old_r.contains(t as usize) {
                        let j = choose|j: int| 0 <= j < r@.len() && r@[j] == t as usize;
                        assert(j == old_r.len());
                    }
                    if old_r.contains(t as usize) {
                        let j = choose|j: int| 0 <= j < old_r.len() && old_r[j] == t as usize;
                        assert(r@[j] == t as usize);
                    }
                } else {
                    if hit {
                        assert(r@[old_r.len() as int] == i);
                    } else {
                        if r@.contains(t as usize) {
                            let j = choose|j: int| 0 <= j < r@.len() && r@[j] == t as usize;
                            assert(old_r[j] < i);
                        }
                    }
                }
            }
        }
        i = i + 1;
    }
    r
}

/// The command of the first entry named `name`, if any.
pub fn command_for_name(entries: &Vec<DesktopEntry>, name: &str) -> (r: Option<String>)
    ensures
        match r {
            Some(c) => exists|i: int|
                0 <= i < entries@.len() && entries@[i]@.name == name@ && c@ == entries@[i]@.command
                    && forall|j: int| 0 <= j < i ==> #[trigger] entries@[j]@.name != name@,
            None => forall|i: int| 0 <= i < entries@.len() ==> #[trigger] entries@[i]@.name != name@,
        },
{
    let mut i: usize = 0;
    while i < entries.len()
        invariant
            i <= entries@.len(),
            forall|j: int| 0 <= j < i ==> #[trigger] entries@[j]@.name != name@,
        decreases entries.len() - i,
    {
        if str_eq(entries[i].name.as_str(), name) {
            return Some(entries[i].command.clone());
        }
        i = i + 1;
    }
    None
}

/// The program and arguments to run for an `Exec` string: its whitespace-separated
/// words; nothing when there are none.
pub fn launch_parts(command: &str) -> (r: Option<(String, Vec<String>)>)
    ensures
        match r {
            Some((prog, args)) => split_ws(command@).len() > 0 && prog@ == split_ws(command@)[0]
                && views(args@) == split_ws(command@).drop_first(),
            None => split_ws(command@).len() == 0,
        },
{
    let mut parts = split_whitespace(command);
    if parts.len() == 0 {
        return None;
    }
    let ghost all = parts@;
    let prog = parts.remove(0);
    assert(views(parts@) =~= views(all).drop_first());
    Some((prog, parts))
}

} // verus!

verus! {

/// The directories searched for `.desktop` files: the system directory,
/// then `applications` in the user's local data directory when it is known.
pub fn application_dirs(local_data_dir: Option<&str>) -> (r: Vec<String>)
    ensures
        views(r@) == (match local_data_dir {
            Some(d) => seq!["/usr/share/applications"@, crate::paths::join(d@, "applications"@)],
            None => seq!["/usr/share/applications"@],
        }),
{
    let mut r: Vec<String> = Vec::new();
    r.push("/usr/share/applications".to_owned());
    match local_data_dir {
        Some(d) => r.push(crate::paths::join_path(d, "applications")),
        None => {},
    }
    proof {
        match local_data_dir {
            Some(d) => assert(views(r@) =~= seq!["/usr/share/applications"@, crate::paths::join(d@, "applications"@)]),
            None => assert(views(r@) =~= seq!["/usr/share/applications"@]),
        }
    }
    r
}

/// The launcher button's settings.
#[derive(Debug, Clone)]
pub struct LauncherOptions {
    /// Icon name of the button
    pub icon: String,
    pub tooltip: String,
}

impl LauncherOptions {
    /// Settings from the widget's variables (`icon`: `system-search`,
    /// `tooltip`: `App Launcher`).
    pub fn from_context(ctx: &crate::widgets::WidgetContext) -> (o: Self)
        ensures
            o.icon@ == crate::widgets::var_or(ctx.vars@, "icon"@, "system-search"@),
            o.tooltip@ == crate::widgets::var_or(ctx.vars@, "tooltip"@, "App Launcher"@),
    {
        LauncherOptions { icon: ctx.var("icon", "system-search"), tooltip: ctx.var("tooltip", "App Launcher") }
    }
}

} // verus!
