//! Verified text primitives over `Seq<char>`, each proved against the
//! behaviour std documents for the corresponding `str` method.
use vstd::prelude::*;

verus! {

/// Appends one character to a `String` (std `String::push`).
/// Claims: the new contents are the old contents followed by `c`.
#[verifier::external_body]
pub(crate) fn string_push(s: &mut String, c: char)
    ensures
        final(s)@ == old(s)@.push(c),
{
    s.push(c);
}

/// The characters of `s`, in order.
pub fn to_chars(s: &str) -> (v: Vec<char>)
    ensures
        v@ == s@,
{
    let mut v: Vec<char> = Vec::new();
    for c in it: s.chars()
        invariant
            v@ == it.seq().take(it.index() as int),
    {
        v.push(c);
    }
    v
}

/// A `String` holding the characters of `v[from..to]`.
pub fn string_of(v: &Vec<char>, from: usize, to: usize) -> (s: String)
    requires
        from <= to <= v.len(),
    ensures
        s@ == v@.subrange(from as int, to as int),
{
    let mut s = String::new();
    let mut i = from;
    while i < to
        invariant
            from <= i <= to <= v.len(),
            s@ == v@.subrange(from as int, i as int),
        decreases to - i,
    {
        string_push(&mut s, v[i]);
        i = i + 1;
    }
    s
}

/// A `String` holding all of `v`.
pub fn string_from(v: &Vec<char>) -> (s: String)
    ensures
        s@ == v@,
{
    let s = string_of(v, 0, v.len());
    assert(v@.subrange(0, v@.len() as int) =~= v@);
    s
}

/// `char::is_whitespace`: the Unicode `White_Space` property.
pub open spec fn is_ws(c: char) -> bool {
    let n = c as u32;
    (0x09 <= n <= 0x0d) || n == 0x20 || n == 0x85 || n == 0xa0 || n == 0x1680 || (0x2000 <= n
        <= 0x200a) || n == 0x2028 || n == 0x2029 || n == 0x202f || n == 0x205f || n == 0x3000
}

pub fn is_whitespace(c: char) -> (b: bool)
    ensures
        b == is_ws(c),
{
    let n = c as u32;
    (0x09 <= n && n <= 0x0d) || n == 0x20 || n == 0x85 || n == 0xa0 || n == 0x1680 || (0x2000
        <= n && n <= 0x200a) || n == 0x2028 || n == 0x2029 || n == 0x202f || n == 0x205f || n
        == 0x3000
}

/// `str::trim_start`.
pub open spec fn trim_start(s: Seq<char>) -> Seq<char>
    decreases s.len(),
{
    if s.len() > 0 && is_ws(s[0]) {
        trim_start(s.drop_first())
    } else {
        s
    }
}

/// `str::trim_end`.
pub open spec fn trim_end(s: Seq<char>) -> Seq<char>
    decreases s.len(),
{
    if s.len() > 0 && is_ws(s.last()) {
        trim_end(s.drop_last())
    } else {
        s
    }
}

/// `str::trim`.
pub open spec fn trim(s: Seq<char>) -> Seq<char> {
    trim_end(trim_start(s))
}

proof fn lemma_trim_start_skip(s: Seq<char>, i: int)
    requires
        0 <= i <= s.len(),
        forall|j: int| 0 <= j < i ==> is_ws(#[trigger] s[j]),
    ensures
        trim_start(s) == trim_start(s.skip(i)),
    decreases i,
{
    if i > 0 {
        assert(s.skip(1) =~= s.drop_first());
        lemma_trim_start_skip(s.drop_first(), i - 1);
        assert(s.drop_first().skip(i - 1) =~= s.skip(i));
    } else {
        assert(s.skip(0) =~= s);
    }
}

proof fn lemma_trim_end_take(s: Seq<char>, k: int)
    requires
        0 <= k <= s.len(),
        forall|j: int| k <= j < s.len() ==> is_ws(#[trigger] s[j]),
    ensures
        trim_end(s) == trim_end(s.take(k)),
    decreases s.len() - k,
{
    if k < s.len() {
        lemma_trim_end_take(s.drop_last(), k);
        assert(s.drop_last().take(k) =~= s.take(k));
    } else {
        assert(s.take(k) =~= s);
    }
}

/// Bounds `(a, b)` such that `trim(v) == v[a..b]`.
pub fn trim_bounds(v: &Vec<char>) -> (r: (usize, usize))
    ensures
        r.0 <= r.1 <= v.len(),
        trim(v@) == v@.subrange(r.0 as int, r.1 as int),
{
    let mut a: usize = 0;
    while a < v.len() && is_whitespace(v[a])
        invariant
            a <= v.len(),
            forall|j: int| 0 <= j < a ==> is_ws(#[trigger] v@[j]),
        decreases v.len() - a,
    {
        a = a + 1;
    }
    proof {
        lemma_trim_start_skip(v@, a as int);
    }
    let ghost t = v@.skip(a as int);
    assert(trim_start(t) == t);
    let mut b: usize = v.len();
    while b > a && is_whitespace(v[b - 1])
        invariant
            a <= b <= v.len(),
            forall|j: int| b <= j < v.len() ==> is_ws(#[trigger] v@[j]),
        decreases b,
    {
        b = b - 1;
    }
    proof {
        let k = (b - a) as int;
        assert forall|j: int| k <= j < t.len() implies is_ws(#[trigger] t[j]) by {
            assert(t[j] == v@[j + a]);
        }
        lemma_trim_end_take(t, k);
        assert(t.take(k) =~= v@.subrange(a as int, b as int));
        let u = v@.subrange(a as int, b as int);
        if u.len() > 0 {
            assert(u.last() == v@[b - 1]);
        }
    }
    (a, b)
}

/// `str::trim`, returning an owned string.
pub fn trim_str(s: &str) -> (r: String)
    ensures
        r@ == trim(s@),
{
    let v = to_chars(s);
    let (a, b) = trim_bounds(&v);
    string_of(&v, a, b)
}

/// `str::starts_with` for a string pattern.
pub open spec fn starts_with(s: Seq<char>, p: Seq<char>) -> bool {
    p.len() <= s.len() && s.take(p.len() as int) == p
}

/// `str::ends_with` for a string pattern.
pub open spec fn ends_with(s: Seq<char>, p: Seq<char>) -> bool {
    p.len() <= s.len() && s.skip(s.len() - p.len()) == p
}

/// Whether `p` occurs in `v` at position `i`.
pub open spec fn occurs_at(s: Seq<char>, p: Seq<char>, i: int) -> bool {
    0 <= i && i + p.len() <= s.len() && s.subrange(i, i + p.len()) == p
}

/// `str::contains` for a string pattern.
pub open spec fn contains(s: Seq<char>, p: Seq<char>) -> bool {
    exists|i: int| occurs_at(s, p, i)
}

pub fn occurs_at_exec(v: &Vec<char>, p: &Vec<char>, i: usize) -> (b: bool)
    ensures
        b == occurs_at(v@, p@, i as int),
{
    if i > v.len() || p.len() > v.len() - i {
        return false;
    }
    let mut j: usize = 0;
    while j < p.len()
        invariant
            i + p.len() <= v.len(),
            j <= p.len(),
            forall|k: int| 0 <= k < j ==> v@[i + k] == p@[k],
        decreases p.len() - j,
    {
        if v[i + j] != p[j] {
            assert(v@.subrange(i as int, i + p.len())[j as int] != p@[j as int]);
            return false;
        }
        j = j + 1;
    }
    assert(v@.subrange(i as int, i + p.len()) =~= p@);
    true
}

pub fn starts_with_exec(v: &Vec<char>, p: &Vec<char>) -> (b: bool)
    ensures
        b == starts_with(v@, p@),
{
    let b = occurs_at_exec(v, p, 0);
    assert(p.len() <= v.len() ==> v@.take(p.len() as int) =~= v@.subrange(0, p.len() as int));
    b
}

pub fn ends_with_exec(v: &Vec<char>, p: &Vec<char>) -> (b: bool)
    ensures
        b == ends_with(v@, p@),
{
    if p.len() > v.len() {
        return false;
    }
    let b = occurs_at_exec(v, p, v.len() - p.len());
    assert(v@.skip(v.len() - p.len()) =~= v@.subrange(v.len() - p.len(), v.len() as int));
    b
}

/// `str::starts_with` on string slices.
pub fn str_starts_with(s: &str, p: &str) -> (b: bool)
    ensures
        b == starts_with(s@, p@),
{
    starts_with_exec(&to_chars(s), &to_chars(p))
}

/// `str::ends_with` on string slices.
pub fn str_ends_with(s: &str, p: &str) -> (b: bool)
    ensures
        b == ends_with(s@, p@),
{
    ends_with_exec(&to_chars(s), &to_chars(p))
}

/// The first position at or after `from` where `p` occurs in `v`.
pub fn find_from(v: &Vec<char>, p: &Vec<char>, from: usize) -> (r: Option<usize>)
    requires
        from <= v.len(),
    ensures
        match r {
            Some(i) => from <= i && occurs_at(v@, p@, i as int) && forall|j: int|
                from <= j < i ==> !occurs_at(v@, p@, j),
            None => forall|j: int| from <= j ==> !occurs_at(v@, p@, j),
        },
{
    let mut i = from;
    while i < v.len()
        invariant
            from <= i <= v.len(),
            forall|j: int| from <= j < i ==> !occurs_at(v@, p@, j),
        decreases v.len() - i,
    {
        if occurs_at_exec(v, p, i) {
            return Some(i);
        }
        i = i + 1;
    }
    if occurs_at_exec(v, p, i) {
        return Some(i);
    }
    None
}

/// `str::contains` on string slices.
pub fn str_contains(s: &str, p: &str) -> (b: bool)
    ensures
        b == contains(s@, p@),
{
    let v = to_chars(s);
    let pv = to_chars(p);
    match find_from(&v, &pv, 0) {
        Some(i) => true,
        None => false,
    }
}

/// `str::eq` on string slices.
pub fn str_eq(a: &str, b: &str) -> (r: bool)
    ensures
        r == (a@ == b@),
{
    let va = to_chars(a);
    let vb = to_chars(b);
    if va.len() != vb.len() {
        return false;
    }
    let r = occurs_at_exec(&va, &vb, 0);
    assert(va@.subrange(0, vb@.len() as int) =~= va@);
    r
}

} // verus!

verus! {

/// The views of a sequence of strings.
pub open spec fn views(v: Seq<String>) -> Seq<Seq<char>> {
    v.map_values(|s: String| s@)
}

/// Position of the first `c` in `s`, or `s.len()` when there is none.
pub open spec fn char_pos(s: Seq<char>, c: char) -> nat
    decreases s.len(),
{
    if s.len() == 0 {
        0
    } else if s[0] == c {
        0
    } else {
        1 + char_pos(s.drop_first(), c)
    }
}

pub proof fn lemma_char_pos(s: Seq<char>, c: char)
    ensures
        char_pos(s, c) <= s.len(),
        forall|j: int| 0 <= j < char_pos(s, c) ==> s[j] != c,
        char_pos(s, c) < s.len() ==> s[char_pos(s, c) as int] == c,
    decreases s.len(),
{
    if s.len() > 0 && s[0] != c {
        lemma_char_pos(s.drop_first(), c);
        assert forall|j: int| 0 <= j < char_pos(s, c) implies s[j] != c by {
            if j > 0 {
                assert(s[j] == s.drop_first()[j - 1]);
            }
        }
    }
}

pub proof fn lemma_char_pos_unique(s: Seq<char>, c: char, k: int)
    requires
        0 <= k <= s.len(),
        forall|j: int| 0 <= j < k ==> s[j] != c,
        k < s.len() ==> s[k] == c,
    ensures
        char_pos(s, c) == k,
{
    lemma_char_pos(s, c);
    if char_pos(s, c) < k {
        assert(s[char_pos(s, c) as int] == c);
    }
    if k < char_pos(s, c) {
        assert(s[k] != c);
    }
}

/// `str::split` on a char: the pieces between occurrences of `c`.
pub open spec fn split_char(s: Seq<char>, c: char) -> Seq<Seq<char>>
    decreases s.len(),
{
    let i = char_pos(s, c);
    if i < s.len() {
        seq![s.take(i as int)] + split_char(s.skip(i as int + 1), c)
    } else {
        seq![s]
    }
}

/// Drops one trailing `'\r'`.
pub open spec fn strip_cr(s: Seq<char>) -> Seq<char> {
    if s.len() > 0 && s.last() == '\r' {
        s.drop_last()
    } else {
        s
    }
}

/// `str::lines`: lines end at `"\n"` or `"\r\n"`; a final line ending is optional.
pub open spec fn lines(s: Seq<char>) -> Seq<Seq<char>>
    decreases s.len(),
{
    let i = char_pos(s, '\n');
    if s.len() == 0 {
        seq![]
    } else if i < s.len() {
        seq![strip_cr(s.take(i as int))] + lines(s.skip(i as int + 1))
    } else {
        seq![s]
    }
}

/// Position of `c` in `v` at or after `from`, or `v.len()`.
pub fn char_pos_from(v: &Vec<char>, c: char, from: usize) -> (r: usize)
    requires
        from <= v.len(),
    ensures
        from <= r <= v.len(),
        r - from == char_pos(v@.skip(from as int), c),
{
    let mut i = from;
    while i < v.len() && v[i] != c
        invariant
            from <= i <= v.len(),
            forall|j: int| from <= j < i ==> v@[j] != c,
        decreases v.len() - i,
    {
        i = i + 1;
    }
    proof {
        let t = v@.skip(from as int);
        lemma_char_pos_unique(t, c, (i - from) as int);
    }
    i
}

/// `str::split` on a char.
pub fn split_on_char(s: &str, c: char) -> (r: Vec<String>)
    ensures
        views(r@) == split_char(s@, c),
{
    let v = to_chars(s);
    let mut out: Vec<String> = Vec::new();
    let mut start: usize = 0;
    assert(v@.skip(0) =~= v@);
    loop
        invariant
            start <= v.len(),
            v@ == s@,
            views(out@) + split_char(v@.skip(start as int), c) == split_char(v@, c),
        decreases v.len() - start,
    {
        let i = char_pos_from(&v, c, start);
        let ghost t = v@.skip(start as int);
        if i < v.len() {
            let piece = string_of(&v, start, i);
            proof {
                assert(t.take((i - start) as int) =~= v@.subrange(start as int, i as int));
                assert(t.skip(i - start + 1) =~= v@.skip(i + 1));
                assert(views(out@.push(piece)) =~= views(out@).push(piece@));
                assert(split_char(t, c) == seq![t.take((i - start) as int)] + split_char(
                    t.skip(i - start + 1),
                    c,
                ));
                assert(views(out@.push(piece)) + split_char(v@.skip(i + 1), c) =~= views(out@)
                    + split_char(t, c));
            }
            out.push(piece);
            start = i + 1;
        } else {
            let piece = string_of(&v, start, v.len());
            proof {
                assert(t =~= v@.subrange(start as int, v.len() as int));
                assert(char_pos(t, c) == t.len());
                assert(split_char(t, c) == seq![t]);
                assert(views(out@.push(piece)) =~= views(out@).push(piece@));
                assert(views(out@.push(piece)) =~= views(out@) + split_char(t, c));
                assert(views(out@.push(piece)) == split_char(v@, c));
            }
            out.push(piece);
            return out;
        }
    }
}

/// `str::lines`.
pub fn split_lines(s: &str) -> (r: Vec<String>)
    ensures
        views(r@) == lines(s@),
{
    let v = to_chars(s);
    let mut out: Vec<String> = Vec::new();
    let mut start: usize = 0;
    assert(v@.skip(0) =~= v@);
    while start < v.len()
        invariant
            start <= v.len(),
            views(out@) + lines(v@.skip(start as int)) == lines(v@),
        decreases v.len() - start,
    {
        let i = char_pos_from(&v, '\n', start);
        let ghost t = v@.skip(start as int);
        if i < v.len() {
            let end = if i > start && v[i - 1] == '\r' {
                i - 1
            } else {
                i
            };
            let piece = string_of(&v, start, end);
            proof {
                let line = t.take((i - start) as int);
                assert(line =~= v@.subrange(start as int, i as int));
                if i > start && v@[i - 1] == '\r' {
                    assert(strip_cr(line) =~= v@.subrange(start as int, end as int));
                } else {
                    assert(strip_cr(line) =~= v@.subrange(start as int, end as int));
                }
                assert(t.skip(i - start + 1) =~= v@.skip(i + 1));
                assert(views(out@.push(piece)) =~= views(out@).push(piece@));
                assert(views(out@.push(piece)) + lines(v@.skip(i + 1)) =~= views(out@) + lines(
                    t,
                ));
            }
            out.push(piece);
            start = i + 1;
        } else {
            let piece = string_of(&v, start, v.len());
            proof {
                assert(t =~= v@.subrange(start as int, v.len() as int));
                assert(views(out@.push(piece)) =~= views(out@).push(piece@));
                assert(v@.skip(v.len() as int) =~= Seq::<char>::empty());
                assert(views(out@.push(piece)) + lines(v@.skip(v.len() as int)) =~= views(out@)
                    + lines(t));
            }
            out.push(piece);
            start = v.len();
        }
    }
    proof {
        assert(v@.skip(start as int) =~= Seq::<char>::empty());
        assert(views(out@) + lines(v@.skip(start as int)) =~= views(out@));
    }
    out
}

/// `str::split_once` on a char: the text before and after the first `c`.
pub open spec fn split_once(s: Seq<char>, c: char) -> Option<(Seq<char>, Seq<char>)> {
    let i = char_pos(s, c);
    if i < s.len() {
        Some((s.take(i as int), s.skip(i as int + 1)))
    } else {
        None
    }
}

pub fn split_once_char(s: &str, c: char) -> (r: Option<(String, String)>)
    ensures
        match r {
            Some((a, b)) => split_once(s@, c) == Some((a@, b@)),
            None => split_once(s@, c) is None,
        },
{
    let v = to_chars(s);
    let i = char_pos_from(&v, c, 0);
    assert(v@.skip(0) =~= v@);
    if i < v.len() {
        let a = string_of(&v, 0, i);
        let b = string_of(&v, i + 1, v.len());
        assert(v@.take(i as int) =~= v@.subrange(0, i as int));
        assert(v@.skip(i + 1) =~= v@.subrange(i + 1, v.len() as int));
        Some((a, b))
    } else {
        None
    }
}

/// `str::strip_prefix` for a string pattern.
pub open spec fn strip_prefix(s: Seq<char>, p: Seq<char>) -> Option<Seq<char>> {
    if starts_with(s, p) {
        Some(s.skip(p.len() as int))
    } else {
        None
    }
}

pub fn str_strip_prefix(s: &str, p: &str) -> (r: Option<String>)
    ensures
        match r {
            Some(t) => strip_prefix(s@, p@) == Some(t@),
            None => strip_prefix(s@, p@) is None,
        },
{
    let v = to_chars(s);
    let pv = to_chars(p);
    if starts_with_exec(&v, &pv) {
        let t = string_of(&v, pv.len(), v.len());
        assert(v@.skip(pv.len() as int) =~= v@.subrange(pv.len() as int, v.len() as int));
        Some(t)
    } else {
        None
    }
}

/// `str::trim_start_matches` for a non-empty string pattern.
pub open spec fn trim_start_matches(s: Seq<char>, p: Seq<char>) -> Seq<char>
    decreases s.len(),
{
    if p.len() > 0 && starts_with(s, p) {
        trim_start_matches(s.skip(p.len() as int), p)
    } else {
        s
    }
}

/// `str::trim_end_matches` for a non-empty string pattern.
pub open spec fn trim_end_matches(s: Seq<char>, p: Seq<char>) -> Seq<char>
    decreases s.len(),
{
    if p.len() > 0 && ends_with(s, p) {
        trim_end_matches(s.take(s.len() - p.len()), p)
    } else {
        s
    }
}

/// Start index `a` with `trim_start_matches(v, p) == v[a..]`.
pub fn trim_start_matches_pos(v: &Vec<char>, p: &Vec<char>) -> (a: usize)
    requires
        p.len() > 0,
    ensures
        a <= v.len(),
        trim_start_matches(v@, p@) == v@.skip(a as int),
{
    let mut a: usize = 0;
    assert(v@.skip(0) =~= v@);
    while occurs_at_exec(v, p, a)
        invariant
            a <= v.len(),
            p.len() > 0,
            trim_start_matches(v@, p@) == trim_start_matches(v@.skip(a as int), p@),
        decreases v.len() - a,
    {
        proof {
            let t = v@.skip(a as int);
            assert(t.take(p.len() as int) =~= v@.subrange(a as int, a + p.len()));
            assert(t.skip(p.len() as int) =~= v@.skip(a + p.len()));
        }
        a = a + p.len();
    }
    proof {
        let t = v@.skip(a as int);
        if starts_with(t, p@) {
            assert(t.take(p.len() as int) =~= v@.subrange(a as int, a + p.len()));
        }
    }
    a
}

/// End index `b` with `trim_end_matches(v, p) == v[..b]`.
pub fn trim_end_matches_pos(v: &Vec<char>, p: &Vec<char>, lo: usize) -> (b: usize)
    requires
        p.len() > 0,
        lo <= v.len(),
    ensures
        lo <= b <= v.len(),
        trim_end_matches(v@.subrange(lo as int, v.len() as int), p@) == v@.subrange(
            lo as int,
            b as int,
        ),
{
    let mut b: usize = v.len();
    assert(v@.subrange(lo as int, v.len() as int) =~= v@.subrange(lo as int, b as int));
    while b - lo >= p.len() && occurs_at_exec(v, p, b - p.len())
        invariant
            lo <= b <= v.len(),
            p.len() > 0,
            trim_end_matches(v@.subrange(lo as int, v.len() as int), p@) == trim_end_matches(
                v@.subrange(lo as int, b as int),
                p@,
            ),
        decreases b,
    {
        proof {
            let t = v@.subrange(lo as int, b as int);
            assert(t.skip(t.len() - p.len()) =~= v@.subrange(b - p.len(), b as int));
            assert(t.take(t.len() - p.len()) =~= v@.subrange(lo as int, b - p.len()));
        }
        b = b - p.len();
    }
    proof {
        let t = v@.subrange(lo as int, b as int);
        if ends_with(t, p@) {
            assert(t.skip(t.len() - p.len()) =~= v@.subrange(b - p.len(), b as int));
        }
    }
    b
}

/// `str::replace` for a non-empty pattern: every non-overlapping occurrence of
/// `from`, scanning left to right, is replaced by `to`.
pub open spec fn replace(s: Seq<char>, from: Seq<char>, to: Seq<char>) -> Seq<char>
    decreases s.len(),
{
    if s.len() == 0 || from.len() == 0 {
        s
    } else if starts_with(s, from) {
        to + replace(s.skip(from.len() as int), from, to)
    } else {
        seq![s[0]] + replace(s.drop_first(), from, to)
    }
}

pub fn str_replace(s: &str, from: &str, to: &str) -> (r: String)
    requires
        from@.len() > 0,
    ensures
        r@ == replace(s@, from@, to@),
{
    let v = to_chars(s);
    let fv = to_chars(from);
    let tv = to_chars(to);
    let mut out = String::new();
    let mut i: usize = 0;
    assert(v@.skip(0) =~= v@);
    while i < v.len()
        invariant
            i <= v.len(),
            fv@ == from@,
            fv.len() > 0,
            out@ + replace(v@.skip(i as int), fv@, tv@) == replace(v@, fv@, tv@),
        decreases v.len() - i,
    {
        let ghost t = v@.skip(i as int);
        if occurs_at_exec(&v, &fv, i) {
            proof {
                assert(t.take(fv.len() as int) =~= v@.subrange(i as int, i + fv.len()));
                assert(t.skip(fv.len() as int) =~= v@.skip(i + fv.len()));
            }
            let mut k: usize = 0;
            let ghost before = out@;
            while k < tv.len()
                invariant
                    k <= tv.len(),
                    out@ == before + tv@.take(k as int),
                decreases tv.len() - k,
            {
                string_push(&mut out, tv[k]);
                proof {
                    assert(tv@.take(k + 1) =~= tv@.take(k as int).push(tv@[k as int]));
                }
                k = k + 1;
            }
            proof {
                assert(tv@.take(k as int) =~= tv@);
                assert(out@ + replace(v@.skip(i + fv.len()), fv@, tv@) =~= before + replace(
                    t,
                    fv@,
                    tv@,
                ));
            }
            i = i + fv.len();
        } else {
            proof {
                if starts_with(t, fv@) {
                    assert(t.take(fv.len() as int) =~= v@.subrange(i as int, i + fv.len()));
                }
                assert(t.drop_first() =~= v@.skip(i + 1));
                assert(t[0] == v@[i as int]);
            }
            let ghost before = out@;
            string_push(&mut out, v[i]);
            proof {
                assert(out@ + replace(v@.skip(i + 1), fv@, tv@) =~= before + replace(t, fv@, tv@));
            }
            i = i + 1;
        }
    }
    proof {
        assert(v@.skip(i as int) =~= Seq::<char>::empty());
        assert(out@ + replace(v@.skip(i as int), fv@, tv@) =~= out@);
    }
    out
}

} // verus!

verus! {

/// Appends the characters of `v` to `out`.
pub fn push_chars(out: &mut String, v: &Vec<char>)
    ensures
        final(out)@ == old(out)@ + v@,
{
    let mut k: usize = 0;
    while k < v.len()
        invariant
            k <= v.len(),
            out@ == old(out)@ + v@.take(k as int),
        decreases v.len() - k,
    {
        string_push(out, v[k]);
        proof {
            assert(v@.take(k + 1) =~= v@.take(k as int).push(v@[k as int]));
        }
        k = k + 1;
    }
    assert(v@.take(k as int) =~= v@);
}

/// Appends `s` to `out` (std `String::push_str`).
pub fn push_str(out: &mut String, s: &str)
    ensures
        final(out)@ == old(out)@ + s@,
{
    let v = to_chars(s);
    push_chars(out, &v);
}

/// The concatenation `a + b`.
pub fn concat(a: &str, b: &str) -> (r: String)
    ensures
        r@ == a@ + b@,
{
    let mut r = String::new();
    push_str(&mut r, a);
    push_str(&mut r, b);
    assert(r@ =~= a@ + b@);
    r
}

/// The concatenation `a + b + c`.
pub fn concat3(a: &str, b: &str, c: &str) -> (r: String)
    ensures
        r@ == a@ + b@ + c@,
{
    let mut r = String::new();
    push_str(&mut r, a);
    push_str(&mut r, b);
    push_str(&mut r, c);
    assert(r@ =~= a@ + b@ + c@);
    r
}

/// The ASCII digit for `d < 10`.
pub open spec fn digit_char(d: nat) -> char {
    if d == 0 {
        '0'
    } else if d == 1 {
        '1'
    } else if d == 2 {
        '2'
    } else if d == 3 {
        '3'
    } else if d == 4 {
        '4'
    } else if d == 5 {
        '5'
    } else if d == 6 {
        '6'
    } else if d == 7 {
        '7'
    } else if d == 8 {
        '8'
    } else {
        '9'
    }
}

/// Decimal notation of `n` (the `Display` of unsigned integers).
pub open spec fn dec(n: nat) -> Seq<char>
    decreases n,
{
    if n < 10 {
        seq![digit_char(n)]
    } else {
        dec(n / 10) + seq![digit_char(n % 10)]
    }
}

/// Decimal notation of a signed integer (the `Display` of signed integers).
pub open spec fn dec_int(n: int) -> Seq<char> {
    if n < 0 {
        seq!['-'] + dec((-n) as nat)
    } else {
        dec(n as nat)
    }
}

fn digit(d: u64) -> (c: char)
    requires
        d < 10,
    ensures
        c == digit_char(d as nat),
{
    if d == 0 {
        '0'
    } else if d == 1 {
        '1'
    } else if d == 2 {
        '2'
    } else if d == 3 {
        '3'
    } else if d == 4 {
        '4'
    } else if d == 5 {
        '5'
    } else if d == 6 {
        '6'
    } else if d == 7 {
        '7'
    } else if d == 8 {
        '8'
    } else {
        '9'
    }
}

/// Appends the decimal notation of `n` to `out`.
pub fn push_dec(out: &mut String, n: u64)
    ensures
        final(out)@ == old(out)@ + dec(n as nat),
    decreases n,
{
    if n >= 10 {
        push_dec(out, n / 10);
    }
    string_push(out, digit(n % 10));
    assert(final(out)@ =~= old(out)@ + dec(n as nat)) by {
        if n >= 10 {
            assert(dec(n as nat) == dec((n / 10) as nat) + seq![digit_char((n % 10) as nat)]);
        }
    }
}

/// `u64::to_string`.
pub fn u64_to_string(n: u64) -> (s: String)
    ensures
        s@ == dec(n as nat),
{
    let mut s = String::new();
    push_dec(&mut s, n);
    assert(s@ =~= dec(n as nat));
    s
}

/// `i64::to_string`.
pub fn i64_to_string(n: i64) -> (s: String)
    ensures
        s@ == dec_int(n as int),
{
    let mut s = String::new();
    if n < 0 {
        string_push(&mut s, '-');
        let m: u64 = if n == i64::MIN {
            9223372036854775808u64
        } else {
            (-n) as u64
        };
        push_dec(&mut s, m);
    } else {
        push_dec(&mut s, n as u64);
    }
    assert(s@ =~= dec_int(n as int));
    s
}

pub open spec fn is_digit(c: char) -> bool {
    '0' <= c <= '9'
}

pub open spec fn digit_value(c: char) -> nat {
    (c as u32 - '0' as u32) as nat
}

pub open spec fn all_digits(s: Seq<char>) -> bool {
    forall|i: int| 0 <= i < s.len() ==> is_digit(#[trigger] s[i])
}

/// Value of a string of decimal digits.
pub open spec fn digits_value(s: Seq<char>) -> nat
    decreases s.len(),
{
    if s.len() == 0 {
        0
    } else {
        digits_value(s.drop_last()) * 10 + digit_value(s.last())
    }
}

/// `FromStr` for an unsigned integer type whose maximum is `max`: an optional
/// `+` then at least one decimal digit, and a value at most `max`.
pub open spec fn parse_unsigned(s: Seq<char>, max: nat) -> Option<nat> {
    let body = if s.len() > 0 && s[0] == '+' {
        s.drop_first()
    } else {
        s
    };
    if body.len() > 0 && all_digits(body) && digits_value(body) <= max {
        Some(digits_value(body))
    } else {
        None
    }
}

/// `FromStr` for a signed integer type with range `min..=max`: an optional sign
/// then at least one decimal digit, and a value in range.
pub open spec fn parse_signed(s: Seq<char>, min: int, max: int) -> Option<int> {
    let neg = s.len() > 0 && s[0] == '-';
    let body = if s.len() > 0 && (s[0] == '+' || s[0] == '-') {
        s.drop_first()
    } else {
        s
    };
    let v: int = if neg {
        -digits_value(body)
    } else {
        digits_value(body) as int
    };
    if body.len() > 0 && all_digits(body) && min <= v <= max {
        Some(v)
    } else {
        None
    }
}

proof fn lemma_digits_prefix(s: Seq<char>, k: int)
    requires
        0 <= k <= s.len(),
    ensures
        digits_value(s.take(k)) <= digits_value(s),
    decreases s.len() - k,
{
    if k < s.len() {
        lemma_digits_prefix(s.drop_last(), k);
        assert(s.drop_last().take(k) =~= s.take(k));
    } else {
        assert(s.take(k) =~= s);
    }
}

/// Value of the digits `v[from..]` when they are all digits and the value is at
/// most `max`; `None` otherwise.
fn digits_up_to(v: &Vec<char>, from: usize, max: u64) -> (r: Option<u64>)
    requires
        from <= v.len(),
    ensures
        match r {
            Some(n) => all_digits(v@.skip(from as int)) && n == digits_value(v@.skip(from as int))
                && n <= max,
            None => !(all_digits(v@.skip(from as int)) && digits_value(v@.skip(from as int))
                <= max),
        },
{
    let ghost body = v@.skip(from as int);
    let mut acc: u64 = 0;
    let mut i = from;
    assert(body.take(0) =~= Seq::<char>::empty());
    while i < v.len()
        invariant
            from <= i <= v.len(),
            body == v@.skip(from as int),
            all_digits(body.take(i - from)),
            acc == digits_value(body.take(i - from)),
            acc <= max,
        decreases v.len() - i,
    {
        let c = v[i];
        let ghost k = (i - from) as int;
        assert(body[k] == c);
        if !('0' <= c && c <= '9') {
            return None;
        }
        let d: u64 = ((c as u32) - ('0' as u32)) as u64;
        proof {
            assert(body.take(k + 1).drop_last() =~= body.take(k));
            assert(body.take(k + 1).last() == c);
            assert(digits_value(body.take(k + 1)) == acc * 10 + d);
        }
        if d > max || acc > (max - d) / 10 {
            proof {
                assert(acc * 10 + d > max) by (nonlinear_arith)
                    requires
                        d > max || acc > (max - d) / 10,
                        d < 10,
                ;
                lemma_digits_prefix(body, k + 1);
            }
            return None;
        }
        proof {
            assert(acc * 10 + d <= max) by (nonlinear_arith)
                requires
                    acc <= (max - d) / 10,
                    d <= max,
            ;
            assert forall|j: int| 0 <= j < k + 1 implies is_digit(#[trigger] body.take(k + 1)[j]) by {
                if j < k {
                    assert(body.take(k + 1)[j] == body.take(k)[j]);
                }
            }
        }
        acc = acc * 10 + d;
        i = i + 1;
    }
    assert(body.take((i - from) as int) =~= body);
    Some(acc)
}

/// `FromStr` for unsigned integers with maximum `max` (`u64`, `u32`, `usize`, ...).
pub fn parse_unsigned_exec(s: &str, max: u64) -> (r: Option<u64>)
    ensures
        match r {
            Some(n) => parse_unsigned(s@, max as nat) == Some(n as nat),
            None => parse_unsigned(s@, max as nat) is None,
        },
{
    let v = to_chars(s);
    let from: usize = if v.len() > 0 && v[0] == '+' {
        1
    } else {
        0
    };
    assert(v@.skip(from as int) =~= (if v@.len() > 0 && v@[0] == '+' {
        v@.drop_first()
    } else {
        v@
    }));
    if from >= v.len() {
        return None;
    }
    digits_up_to(&v, from, max)
}

/// `u32::from_str`.
pub fn parse_u32(s: &str) -> (r: Option<u32>)
    ensures
        match r {
            Some(n) => parse_unsigned(s@, u32::MAX as nat) == Some(n as nat),
            None => parse_unsigned(s@, u32::MAX as nat) is None,
        },
{
    match parse_unsigned_exec(s, u32::MAX as u64) {
        Some(n) => Some(n as u32),
        None => None,
    }
}

/// `u64::from_str`.
pub fn parse_u64(s: &str) -> (r: Option<u64>)
    ensures
        match r {
            Some(n) => parse_unsigned(s@, u64::MAX as nat) == Some(n as nat),
            None => parse_unsigned(s@, u64::MAX as nat) is None,
        },
{
    parse_unsigned_exec(s, u64::MAX)
}

/// `usize::from_str`.
pub fn parse_usize(s: &str) -> (r: Option<usize>)
    ensures
        match r {
            Some(n) => parse_unsigned(s@, usize::MAX as nat) == Some(n as nat),
            None => parse_unsigned(s@, usize::MAX as nat) is None,
        },
{
    match parse_unsigned_exec(s, usize::MAX as u64) {
        Some(n) => Some(n as usize),
        None => None,
    }
}

/// `i32::from_str`.
pub fn parse_i32(s: &str) -> (r: Option<i32>)
    ensures
        match r {
            Some(n) => parse_signed(s@, i32::MIN as int, i32::MAX as int) == Some(n as int),
            None => parse_signed(s@, i32::MIN as int, i32::MAX as int) is None,
        },
{
    let v = to_chars(s);
    let neg = v.len() > 0 && v[0] == '-';
    let from: usize = if v.len() > 0 && (v[0] == '+' || v[0] == '-') {
        1
    } else {
        0
    };
    assert(v@.skip(from as int) =~= (if v@.len() > 0 && (v@[0] == '+' || v@[0] == '-') {
        v@.drop_first()
    } else {
        v@
    }));
    if from >= v.len() {
        return None;
    }
    let max: u64 = if neg {
        2147483648
    } else {
        2147483647
    };
    match digits_up_to(&v, from, max) {
        Some(n) => {
            if neg {
                Some((0i64 - n as i64) as i32)
            } else {
                Some(n as i32)
            }
        },
        None => None,
    }
}

/// `bool::from_str`: exactly `"true"` or `"false"`.
pub open spec fn parse_bool(s: Seq<char>) -> Option<bool> {
    if s == seq!['t', 'r', 'u', 'e'] {
        Some(true)
    } else if s == seq!['f', 'a', 'l', 's', 'e'] {
        Some(false)
    } else {
        None
    }
}

pub fn parse_bool_exec(s: &str) -> (r: Option<bool>)
    ensures
        r == parse_bool(s@),
{
    let t = "true";
    let f = "false";
    proof {
        reveal_strlit("true");
        reveal_strlit("false");
    }
    if str_eq(s, t) {
        assert(t@ =~= seq!['t', 'r', 'u', 'e']);
        Some(true)
    } else if str_eq(s, f) {
        assert(f@ =~= seq!['f', 'a', 'l', 's', 'e']);
        assert(s@ != seq!['t', 'r', 'u', 'e']) by {
            assert(t@ =~= seq!['t', 'r', 'u', 'e']);
        }
        Some(false)
    } else {
        assert(t@ =~= seq!['t', 'r', 'u', 'e']);
        assert(f@ =~= seq!['f', 'a', 'l', 's', 'e']);
        None
    }
}

/// `char::to_ascii_lowercase`, as a code point.
pub open spec fn ascii_lower(c: char) -> u32 {
    if 'A' <= c <= 'Z' {
        (c as u32 + 32) as u32
    } else {
        c as u32
    }
}

/// `str::eq_ignore_ascii_case`.
pub open spec fn eq_ignore_ascii_case(a: Seq<char>, b: Seq<char>) -> bool {
    a.len() == b.len() && forall|i: int| 0 <= i < a.len() ==> ascii_lower(a[i]) == ascii_lower(b[i])
}

pub fn eq_ignore_ascii_case_exec(a: &str, b: &str) -> (r: bool)
    ensures
        r == eq_ignore_ascii_case(a@, b@),
{
    let va = to_chars(a);
    let vb = to_chars(b);
    if va.len() != vb.len() {
        return false;
    }
    let mut i: usize = 0;
    while i < va.len()
        invariant
            i <= va.len(),
            va.len() == vb.len(),
            va@ == a@,
            vb@ == b@,
            forall|j: int| 0 <= j < i ==> ascii_lower(va@[j]) == ascii_lower(vb@[j]),
        decreases va.len() - i,
    {
        let x = va[i];
        let y = vb[i];
        let lx: u32 = if 'A' <= x && x <= 'Z' {
            x as u32 + 32
        } else {
            x as u32
        };
        let ly: u32 = if 'A' <= y && y <= 'Z' {
            y as u32 + 32
        } else {
            y as u32
        };
        assert(lx == ascii_lower(x));
        assert(ly == ascii_lower(y));
        if lx != ly {
            assert(va@[i as int] == x && vb@[i as int] == y);
            return false;
        }
        i = i + 1;
    }
    true
}

/// Position of the first whitespace char of `s`, or `s.len()`.
pub open spec fn ws_pos(s: Seq<char>) -> nat
    decreases s.len(),
{
    if s.len() == 0 {
        0
    } else if is_ws(s[0]) {
        0
    } else {
        1 + ws_pos(s.drop_first())
    }
}

pub proof fn lemma_ws_pos(s: Seq<char>)
    ensures
        ws_pos(s) <= s.len(),
        forall|j: int| 0 <= j < ws_pos(s) ==> !is_ws(s[j]),
        ws_pos(s) < s.len() ==> is_ws(s[ws_pos(s) as int]),
    decreases s.len(),
{
    if s.len() > 0 && !is_ws(s[0]) {
        lemma_ws_pos(s.drop_first());
        assert forall|j: int| 0 <= j < ws_pos(s) implies !is_ws(s[j]) by {
            if j > 0 {
                assert(s[j] == s.drop_first()[j - 1]);
            }
        }
    }
}

/// `str::split_whitespace`: the maximal runs of non-whitespace characters.
pub open spec fn split_ws(s: Seq<char>) -> Seq<Seq<char>>
    decreases s.len(),
{
    if s.len() == 0 {
        seq![]
    } else if is_ws(s[0]) {
        split_ws(s.drop_first())
    } else {
        let k = ws_pos(s);
        if 0 < k <= s.len() {
            seq![s.take(k as int)] + split_ws(s.skip(k as int))
        } else {
            seq![]
        }
    }
}

pub fn split_whitespace(s: &str) -> (r: Vec<String>)
    ensures
        views(r@) == split_ws(s@),
{
    let v = to_chars(s);
    let mut out: Vec<String> = Vec::new();
    let mut i: usize = 0;
    assert(v@.skip(0) =~= v@);
    while i < v.len()
        invariant
            i <= v.len(),
            views(out@) + split_ws(v@.skip(i as int)) == split_ws(v@),
        decreases v.len() - i,
    {
        let ghost t = v@.skip(i as int);
        if is_whitespace(v[i]) {
            assert(t.drop_first() =~= v@.skip(i + 1));
            i = i + 1;
        } else {
            let mut j = i;
            while j < v.len() && !is_whitespace(v[j])
                invariant
                    i <= j <= v.len(),
                    forall|k: int| i <= k < j ==> !is_ws(#[trigger] v@[k]),
                decreases v.len() - j,
            {
                j = j + 1;
            }
            proof {
                lemma_ws_pos(t);
                let k = (j - i) as int;
                assert forall|m: int| 0 <= m < k implies !is_ws(#[trigger] t[m]) by {
                    assert(t[m] == v@[i + m]);
                }
                if ws_pos(t) < k {
                    assert(t[ws_pos(t) as int] == v@[i + ws_pos(t)]);
                }
                if k < ws_pos(t) {
                    assert(t[k] == v@[j as int]);
                }
                assert(ws_pos(t) == k);
                assert(t.take(k) =~= v@.subrange(i as int, j as int));
                assert(t.skip(k) =~= v@.skip(j as int));
            }
            let piece = string_of(&v, i, j);
            proof {
                assert(views(out@.push(piece)) =~= views(out@).push(piece@));
                assert(views(out@.push(piece)) + split_ws(v@.skip(j as int)) =~= views(out@)
                    + split_ws(t));
            }
            out.push(piece);
            i = j;
        }
    }
    proof {
        assert(v@.skip(i as int) =~= Seq::<char>::empty());
        assert(views(out@) + split_ws(v@.skip(i as int)) =~= views(out@));
    }
    out
}

/// What `str::to_lowercase` returns (Unicode lowercase mapping of each char).
pub uninterp spec fn lowercase_of(s: Seq<char>) -> Seq<char>;

/// Whether every char of `s` is ASCII.
pub open spec fn all_ascii(s: Seq<char>) -> bool {
    forall|i: int| 0 <= i < s.len() ==> (#[trigger] s[i] as u32) < 128
}

/// `str::to_lowercase`. The result is a function of `s`; on ASCII text it is
/// the ASCII lowercase, char by char (Unicode lowercases `A`..`Z` to
/// `a`..`z` and leaves every other ASCII char as it is). What it does beyond
/// ASCII is left unstated.
#[verifier::external_body]
pub(crate) fn to_lowercase(s: &str) -> (r: String)
    ensures
        r@ == lowercase_of(s@),
        all_ascii(s@) ==> r@.len() == s@.len() && forall|i: int|
            0 <= i < s@.len() ==> #[trigger] (r@[i] as u32) == ascii_lower(s@[i]),
{
    s.to_lowercase()
}

} // verus!
