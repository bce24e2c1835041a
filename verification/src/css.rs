//! Stylesheets: `@import` lines and where the imported file is looked for.
use vstd::prelude::*;
use crate::paths::{join, join_path, parent_of, path_parent};
use crate::text::{
    concat3, lines, views,
    ends_with, starts_with, str_ends_with, str_starts_with, string_of, to_chars, trim, trim_end_matches,
    trim_start_matches, trim_str,
};

verus! {

/// Whether `s` is wrapped in double or in single quotes.
pub open spec fn quoted(s: Seq<char>) -> bool {
    s.len() > 0 && ((s[0] == '"' && s.last() == '"') || (s[0] == '\'' && s.last() == '\''))
}

/// The text of an `@import` line after the keyword and before the `;`.
pub open spec fn import_rest(line: Seq<char>) -> Seq<char> {
    trim(trim_end_matches(trim(trim_start_matches(line, "@import"@)), ";"@))
}

/// The inside of a `url(...)` argument.
pub open spec fn url_inner(rest: Seq<char>) -> Seq<char> {
    trim(rest.subrange(4, rest.len() - 1))
}

pub open spec fn is_url(rest: Seq<char>) -> bool {
    starts_with(rest, "url("@) && ends_with(rest, ")"@)
}

/// The path an `@import` line names: a quoted path, or a `url(...)` whose
/// argument is quoted or bare.
pub open spec fn import_path_of(line: Seq<char>) -> Option<Seq<char>> {
    let rest = import_rest(line);
    if quoted(rest) {
        Some(rest.subrange(1, rest.len() - 1))
    } else if is_url(rest) {
        let inner = url_inner(rest);
        if quoted(inner) {
            Some(inner.subrange(1, inner.len() - 1))
        } else {
            Some(inner)
        }
    } else {
        None
    }
}

/// A lone quote character, which would have to be unwrapped from itself.
pub open spec fn lone_quote(s: Seq<char>) -> bool {
    s == seq!['"'] || s == seq!['\'']
}

/// The lines `extract_import_path` can unwrap (a lone quote, as the whole
/// argument or inside `url(...)`, cannot be).
pub open spec fn import_unwrappable(line: Seq<char>) -> bool {
    let rest = import_rest(line);
    !lone_quote(rest) && !(is_url(rest) && !quoted(rest) && lone_quote(url_inner(rest)))
}

proof fn lemma_quoted_len(s: Seq<char>)
    requires
        quoted(s),
        !lone_quote(s),
    ensures
        s.len() >= 2,
{
    if s.len() == 1 {
        if s[0] == '"' {
            assert(s =~= seq!['"']);
        } else {
            assert(s =~= seq!['\'']);
        }
    }
}

fn is_quoted(v: &Vec<char>, lo: usize, hi: usize) -> (b: bool)
    requires
        lo <= hi <= v.len(),
    ensures
        b == quoted(v@.subrange(lo as int, hi as int)),
{
    if lo == hi {
        return false;
    }
    let f = v[lo];
    let l = v[hi - 1];
    (f == '"' && l == '"') || (f == '\'' && l == '\'')
}

/// The path an `@import` line names: `@import "foo.css";`, `@import 'foo.css';`
/// or `@import url(...)`.
pub fn extract_import_path(line: &str) -> (r: Option<String>)
    requires
        import_unwrappable(line@),
    ensures
        match r {
            Some(p) => import_path_of(line@) == Some(p@),
            None => import_path_of(line@) is None,
        },
{
    let after = {
        let v = to_chars(line);
        let kw = to_chars("@import");
        proof {
            reveal_strlit("@import");
        }
        let a = crate::text::trim_start_matches_pos(&v, &kw);
        let s = string_of(&v, a, v.len());
        assert(s@ =~= trim_start_matches(line@, "@import"@));
        trim_str(s.as_str())
    };
    let rest = {
        let v = to_chars(after.as_str());
        let semi = to_chars(";");
        proof {
            reveal_strlit(";");
        }
        let b = crate::text::trim_end_matches_pos(&v, &semi, 0);
        let s = string_of(&v, 0, b);
        assert(v@.subrange(0, v@.len() as int) =~= v@);
        trim_str(s.as_str())
    };
    let rv = to_chars(rest.as_str());
    let n = rv.len();
    if is_quoted(&rv, 0, n) {
        proof {
            assert(rv@.subrange(0, n as int) =~= rv@);
            lemma_quoted_len(rv@);
        }
        return Some(string_of(&rv, 1, n - 1));
    }
    assert(rv@.subrange(0, n as int) =~= rv@);
    if str_starts_with(rest.as_str(), "url(") && str_ends_with(rest.as_str(), ")") {
        proof {
            reveal_strlit("url(");
            reveal_strlit(")");
            assert(rv@.take(4)[3] == '(');
            assert(rv@[3] == '(');
            assert(rv@.skip(n - 1)[0] == ')');
            assert(rv@[n - 1] == ')');
        }
        let inner_raw = string_of(&rv, 4, n - 1);
        let inner = trim_str(inner_raw.as_str());
        let iv = to_chars(inner.as_str());
        let m = iv.len();
        if is_quoted(&iv, 0, m) {
            proof {
                assert(iv@.subrange(0, m as int) =~= iv@);
                lemma_quoted_len(iv@);
            }
            return Some(string_of(&iv, 1, m - 1));
        }
        assert(iv@.subrange(0, m as int) =~= iv@);
        return Some(inner);
    }
    None
}

/// Where an import is read from: an absolute path as is, a relative one in
/// the importing file's directory (its parent, or `.`).
pub open spec fn import_location(importer: Seq<char>, import: Seq<char>) -> Seq<char> {
    if starts_with(import, "/"@) {
        import
    } else {
        join(match path_parent(importer) {
            Some(d) => d,
            None => "."@,
        }, import)
    }
}

pub fn resolve_import(importer: &str, import: &str) -> (r: String)
    ensures
        r@ == import_location(importer@, import@),
{
    if str_starts_with(import, "/") {
        return import.to_owned();
    }
    let dir = match parent_of(importer) {
        Some(d) => d,
        None => ".".to_owned(),
    };
    join_path(dir.as_str(), import)
}

} // verus!

verus! {

// ---- expanding `@import`s ---------------------------------------------------

/// What reading a stylesheet gave.
#[derive(Debug, Clone)]
pub enum CssFile {
    /// The file does not exist
    Missing,
    /// The file exists but could not be read (the system's message)
    Unreadable(String),
    /// The file's text
    Text(String),
}

/// The value of a `CssFile`.
pub enum FileView {
    Missing,
    Unreadable(Seq<char>),
    Text(Seq<char>),
}

pub open spec fn file_view(f: CssFile) -> FileView {
    match f {
        CssFile::Missing => FileView::Missing,
        CssFile::Unreadable(e) => FileView::Unreadable(e@),
        CssFile::Text(t) => FileView::Text(t@),
    }
}

/// Deepest import level that is still read (the main stylesheet is level 0).
pub open spec fn max_depth() -> nat {
    16
}

/// The import a stylesheet line makes, if it is an `@import` line.
pub open spec fn line_import(line: Seq<char>) -> Option<Seq<char>> {
    if starts_with(trim(line), "@import"@) {
        import_path_of(trim(line))
    } else {
        None
    }
}

/// Every `@import` line of `ls` can be unwrapped.
pub open spec fn lines_ok(ls: Seq<Seq<char>>) -> bool {
    forall|i: int| 0 <= i < ls.len() && starts_with(trim(#[trigger] ls[i]), "@import"@) ==> import_unwrappable(trim(ls[i]))
}

/// The error detail for a stylesheet that cannot be read.
pub open spec fn read_failure(path: Seq<char>, e: Seq<char>) -> Seq<char> {
    "Cannot read CSS file "@ + path + ": "@ + e
}

/// The stylesheet at `path` (read at import level `depth`) with its imports
/// expanded, given what each file holds: past the depth limit or for a
/// missing file, nothing; for an unreadable file, the error detail.
pub open spec fn expand(fs: spec_fn(Seq<char>) -> FileView, path: Seq<char>, depth: nat) -> Result<Seq<char>, Seq<char>>
    decreases 17 - depth, 1int, 0int,
{
    if depth > max_depth() {
        Ok(Seq::empty())
    } else {
        match fs(path) {
            FileView::Missing => Ok(Seq::empty()),
            FileView::Unreadable(e) => Err(read_failure(path, e)),
            FileView::Text(c) => expand_lines(fs, path, lines(c), 0, depth),
        }
    }
}

/// Lines `ls[i..]` of the stylesheet at `path`, expanded: each line followed
/// by a newline, an `@import` line replaced by the imported sheet (resolved
/// against `path`). The first error met wins.
pub open spec fn expand_lines(
    fs: spec_fn(Seq<char>) -> FileView,
    path: Seq<char>,
    ls: Seq<Seq<char>>,
    i: nat,
    depth: nat,
) -> Result<Seq<char>, Seq<char>>
    decreases 17 - depth, 0int, ls.len() - i,
{
    if depth > max_depth() || i >= ls.len() {
        Ok(Seq::empty())
    } else {
        match line_import(ls[i as int]) {
            Some(p) => match expand(fs, import_location(path, p), depth + 1) {
                Err(e) => Err(e),
                Ok(x) => match expand_lines(fs, path, ls, i + 1, depth) {
                    Err(e) => Err(e),
                    Ok(r) => Ok(x + "\n"@ + r),
                },
            },
            None => match expand_lines(fs, path, ls, i + 1, depth) {
                Err(e) => Err(e),
                Ok(r) => Ok(ls[i as int] + "\n"@ + r),
            },
        }
    }
}

/// The lines `ls[i..]`, each followed by a newline.
pub open spec fn with_newlines(ls: Seq<Seq<char>>, i: nat) -> Seq<char>
    decreases ls.len() - i,
{
    if i >= ls.len() {
        Seq::empty()
    } else {
        ls[i as int] + "\n"@ + with_newlines(ls, i + 1)
    }
}

proof fn lemma_plain_lines(fs: spec_fn(Seq<char>) -> FileView, path: Seq<char>, ls: Seq<Seq<char>>, i: nat, depth: nat)
    requires
        depth <= max_depth(),
        forall|k: int| 0 <= k < ls.len() ==> #[trigger] line_import(ls[k]) is None,
    ensures
        expand_lines(fs, path, ls, i, depth) == Ok::<Seq<char>, Seq<char>>(with_newlines(ls, i)),
    decreases ls.len() - i,
{
    if i < ls.len() {
        assert(line_import(ls[i as int]) is None);
        lemma_plain_lines(fs, path, ls, i + 1, depth);
    }
}

/// A stylesheet without `@import` lines reads as itself: each of its lines
/// followed by a newline.
pub proof fn law_plain_stylesheet(fs: spec_fn(Seq<char>) -> FileView, path: Seq<char>, text: Seq<char>)
    requires
        fs(path) == FileView::Text(text),
        forall|k: int| 0 <= k < lines(text).len() ==> #[trigger] line_import(lines(text)[k]) is None,
    ensures
        expand(fs, path, 0) == Ok::<Seq<char>, Seq<char>>(with_newlines(lines(text), 0)),
{
    lemma_plain_lines(fs, path, lines(text), 0, 0);
}

/// An `@import` line is replaced by the whole imported stylesheet: a sheet
/// made of one import line reads as the imported sheet (read one level
/// deeper, resolved against the importer) and a newline.
pub proof fn law_import_inlines(fs: spec_fn(Seq<char>) -> FileView, path: Seq<char>, text: Seq<char>, depth: nat)
    requires
        depth <= max_depth(),
        fs(path) == FileView::Text(text),
        lines(text).len() == 1,
        line_import(lines(text)[0]) is Some,
    ensures
        expand(fs, path, depth) == (match expand(fs, import_location(path, line_import(lines(text)[0]).unwrap()), depth + 1) {
            Ok(x) => Ok(x + "\n"@),
            Err(e) => Err(e),
        }),
{
    let ls = lines(text);
    assert(expand_lines(fs, path, ls, 1, depth) == Ok::<Seq<char>, Seq<char>>(Seq::empty()));
    match expand(fs, import_location(path, line_import(ls[0]).unwrap()), depth + 1) {
        Ok(x) => assert(x + "\n"@ + Seq::<char>::empty() =~= x + "\n"@),
        Err(e) => {},
    }
}

/// Imports nested past the depth limit read as nothing, whatever the files
/// hold: this is what ends a chain of circular imports.
pub proof fn law_depth_limit(fs: spec_fn(Seq<char>) -> FileView, path: Seq<char>, depth: nat)
    requires
        depth > max_depth(),
    ensures
        expand(fs, path, depth) == Ok::<Seq<char>, Seq<char>>(Seq::empty()),
{
}

/// A stylesheet being read: its lines, how far it got, what it produced so far.
#[derive(Debug)]
struct CssFrame {
    path: String,
    lines: Vec<String>,
    next: usize,
    depth: usize,
    out: String,
}

pub struct FrameView {
    pub path: Seq<char>,
    pub lines: Seq<Seq<char>>,
    pub next: nat,
    pub depth: nat,
    pub out: Seq<char>,
}

spec fn frame_view(f: CssFrame) -> FrameView {
    FrameView { path: f.path@, lines: views(f.lines@), next: f.next as nat, depth: f.depth as nat, out: f.out@ }
}

spec fn frames_view(v: Seq<CssFrame>) -> Seq<FrameView> {
    v.map_values(|f: CssFrame| frame_view(f))
}

/// What the top sheet of a stack yields: what it produced so far, then
/// its remaining lines expanded.
pub open spec fn top_total(fs: spec_fn(Seq<char>) -> FileView, t: FrameView) -> Result<Seq<char>, Seq<char>> {
    match expand_lines(fs, t.path, t.lines, t.next, t.depth) {
        Err(e) => Err(e),
        Ok(r) => Ok(t.out + r),
    }
}

/// What a stack of partly read stylesheets yields once finished: the top
/// one is finished, and its text takes the place of the import in the sheet
/// below.
pub open spec fn finish(fs: spec_fn(Seq<char>) -> FileView, s: Seq<FrameView>) -> Result<Seq<char>, Seq<char>>
    decreases s.len(),
{
    if s.len() == 0 {
        Ok(Seq::empty())
    } else {
        match top_total(fs, s.last()) {
            Err(e) => Err(e),
            Ok(v) => if s.len() == 1 {
                Ok(v)
            } else {
                let p = s[s.len() - 2];
                finish(fs, s.drop_last().update(s.len() - 2, FrameView { out: p.out + v + "\n"@, ..p }))
            },
        }
    }
}

/// What the stack yields once the sheet at `path` (level `depth`) it waits
/// for is expanded and put in place.
pub open spec fn wait_result(fs: spec_fn(Seq<char>) -> FileView, s: Seq<FrameView>, path: Seq<char>, depth: nat) -> Result<Seq<char>, Seq<char>> {
    match expand(fs, path, depth) {
        Err(e) => Err(e),
        Ok(x) => if s.len() == 0 {
            Ok(x)
        } else {
            let p = s.last();
            finish(fs, s.update(s.len() - 1, FrameView { out: p.out + x + "\n"@, ..p }))
        },
    }
}

/// One step of the expansion, for the caller to carry out.
#[derive(Debug)]
pub enum CssStep {
    /// Read this file and hand over what it gave
    Read(String),
    /// The expanded stylesheet, or the error that stopped it
    Done(Result<String, crate::error::NovaError>),
}

/// Whether `r` is the expansion outcome `o`.
pub open spec fn reports(r: Result<String, crate::error::NovaError>, o: Result<Seq<char>, Seq<char>>) -> bool {
    match o {
        Ok(t) => r matches Ok(x) && x@ == t,
        Err(e) => r matches Err(crate::error::NovaError::Css(d)) && d@ == e,
    }
}

/// Reads a stylesheet with its `@import`s expanded, one file at a time:
/// each step names the next file to read, and the caller hands back what
/// reading it gave.
#[derive(Debug)]
pub struct CssExpander {
    frames: Vec<CssFrame>,
    pending: Option<(String, usize)>,
}

spec fn frames_ok(s: Seq<FrameView>) -> bool {
    forall|k: int| 0 <= k < s.len() ==> (#[trigger] s[k]).depth <= max_depth() && s[k].next <= s[k].lines.len()
        && lines_ok(s[k].lines)
}

/// Work left: lines still to read, plus sheets still open.
spec fn work(s: Seq<FrameView>) -> nat
    decreases s.len(),
{
    if s.len() == 0 {
        0
    } else {
        work(s.drop_last()) + (s.last().lines.len() - s.last().next) as nat + 1
    }
}

impl CssExpander {
    /// The expander is between steps: waiting for a file.
    pub closed spec fn waiting(&self) -> bool {
        &&& match self.pending {
            Some((_, d)) => d <= max_depth(),
            None => false,
        }
        &&& frames_ok(frames_view(self.frames@))
    }

    /// The file the expander waits for.
    pub closed spec fn wanted(&self) -> Seq<char> {
        match self.pending {
            Some((p, _)) => p@,
            None => Seq::empty(),
        }
    }

    /// What the expansion yields, given what each file holds.
    pub closed spec fn outcome(&self, fs: spec_fn(Seq<char>) -> FileView) -> Result<Seq<char>, Seq<char>> {
        match self.pending {
            Some((p, d)) => wait_result(fs, frames_view(self.frames@), p@, d as nat),
            None => finish(fs, frames_view(self.frames@)),
        }
    }

    /// Start expanding the stylesheet at `path`: the first step reads it.
    pub fn new(path: &str) -> (r: (Self, CssStep))
        ensures
            r.0.waiting(),
            r.0.wanted() == path@,
            r.1 matches CssStep::Read(p) && p@ == path@,
            forall|fs: spec_fn(Seq<char>) -> FileView| #[trigger] r.0.outcome(fs) == expand(fs, path@, 0),
    {
        let e = CssExpander { frames: Vec::new(), pending: Some((path.to_owned(), 0)) };
        proof {
            assert(frames_view(e.frames@) =~= Seq::<FrameView>::empty());
        }
        (e, CssStep::Read(path.to_owned()))
    }

    /// Hand over what reading the wanted file gave; the result is the next
    /// step. The outcome is unchanged by the step, and a finished expansion
    /// reports it.
    pub fn supply(&mut self, file: CssFile) -> (step: CssStep)
        requires
            old(self).waiting(),
            file matches CssFile::Text(t) ==> lines_ok(lines(t@)),
        ensures
            step matches CssStep::Read(p) ==> final(self).waiting() && final(self).wanted() == p@,
            forall|fs: spec_fn(Seq<char>) -> FileView| fs(old(self).wanted()) == file_view(file) ==> match step {
                CssStep::Done(r) => reports(r, #[trigger] old(self).outcome(fs)),
                CssStep::Read(_) => final(self).outcome(fs) == old(self).outcome(fs),
            },
    {
        let ghost s0 = frames_view(self.frames@);
        let ghost fv = file_view(file);
        let ghost wanted = old(self).wanted();
        let (path, depth) = match self.pending.take() {
            Some(pd) => pd,
            None => (String::new(), 0),
        };
        proof {
            assert(path@ == wanted);
            assert forall|fs: spec_fn(Seq<char>) -> FileView| #[trigger] old(self).outcome(fs) == wait_result(fs, s0, path@, depth as nat) by {}
        }
        match file {
            CssFile::Missing => {
                if self.frames.len() == 0 {
                    let empty = String::new();
                    proof {
                        assert forall|fs: spec_fn(Seq<char>) -> FileView| fs(wanted) == fv implies reports(Ok(empty), #[trigger] old(self).outcome(fs)) by {
                            assert(empty@ =~= Seq::<char>::empty());
                        }
                    }
                    return CssStep::Done(Ok(empty));
                }
                let mut top = self.frames.pop().unwrap();
                proof {
                    assert(frame_view(top) == s0.last());
                }
                crate::text::string_push(&mut top.out, '\n');
                self.frames.push(top);
                let ghost s1 = frames_view(self.frames@);
                proof {
                    let p = s0.last();
                    assert(s1 =~= s0.update(s0.len() - 1, FrameView { out: p.out + Seq::<char>::empty() + "\n"@, ..p })) by {
                        reveal_strlit("\n");
                        assert(p.out + Seq::<char>::empty() + "\n"@ =~= p.out.push('\n'));
                    }
                    assert(frames_ok(s1)) by {
                        assert forall|k: int| 0 <= k < s1.len() implies (#[trigger] s1[k]).depth <= max_depth() && s1[k].next <= s1[k].lines.len() && lines_ok(s1[k].lines) by {
                            assert(s0[k].lines == s1[k].lines);
                        }
                    }
                    assert forall|fs: spec_fn(Seq<char>) -> FileView| fs(wanted) == fv implies #[trigger] old(self).outcome(fs) == finish(fs, s1) by {
                        assert(expand(fs, path@, depth as nat) == Ok::<Seq<char>, Seq<char>>(Seq::empty()));
                    }
                }
                let step = self.run();
                proof {
                    assert forall|fs: spec_fn(Seq<char>) -> FileView| fs(wanted) == fv implies match step {
                        CssStep::Done(r) => reports(r, #[trigger] old(self).outcome(fs)),
                        CssStep::Read(_) => final(self).outcome(fs) == old(self).outcome(fs),
                    } by {
                        assert(old(self).outcome(fs) == finish(fs, s1));
                    }
                }
                step
            },
            CssFile::Unreadable(e) => {
                let mut d = concat3("Cannot read CSS file ", path.as_str(), ": ");
                crate::text::push_str(&mut d, e.as_str());
                proof {
                    assert forall|fs: spec_fn(Seq<char>) -> FileView| fs(wanted) == fv implies
                        #[trigger] old(self).outcome(fs) == Err::<Seq<char>, Seq<char>>(read_failure(path@, e@)) by {}
                }
                CssStep::Done(Err(crate::error::NovaError::Css(d)))
            },
            CssFile::Text(t) => {
                let ls = crate::text::split_lines(t.as_str());
                self.frames.push(CssFrame { path, lines: ls, next: 0, depth, out: String::new() });
                let ghost s1 = frames_view(self.frames@);
                proof {
                    let f = s1.last();
                    assert(s1.drop_last() =~= s0);
                    assert(frames_ok(s1)) by {
                        assert forall|k: int| 0 <= k < s1.len() implies (#[trigger] s1[k]).depth <= max_depth() && s1[k].next <= s1[k].lines.len() && lines_ok(s1[k].lines) by {
                            if k < s0.len() {
                                assert(s1[k] == s0[k]);
                            }
                        }
                    }
                    assert forall|fs: spec_fn(Seq<char>) -> FileView| fs(wanted) == fv implies
                        #[trigger] old(self).outcome(fs) == finish(fs, s1) by {
                        assert(f.out =~= Seq::<char>::empty());
                        lemma_finish_pushed(fs, s0, f);
                    }
                }
                let step = self.run();
                proof {
                    assert forall|fs: spec_fn(Seq<char>) -> FileView| fs(wanted) == fv implies match step {
                        CssStep::Done(r) => reports(r, #[trigger] old(self).outcome(fs)),
                        CssStep::Read(_) => final(self).outcome(fs) == old(self).outcome(fs),
                    } by {
                        assert(old(self).outcome(fs) == finish(fs, s1));
                    }
                }
                step
            },
        }
    }

    /// Read on until a file is needed or the expansion is finished.
    fn run(&mut self) -> (step: CssStep)
        requires
            old(self).pending is None,
            frames_ok(frames_view(old(self).frames@)),
        ensures
            step matches CssStep::Read(p) ==> final(self).waiting() && final(self).wanted() == p@,
            forall|fs: spec_fn(Seq<char>) -> FileView| match step {
                CssStep::Done(r) => reports(r, #[trigger] finish(fs, frames_view(old(self).frames@))),
                CssStep::Read(_) => final(self).outcome(fs) == finish(fs, frames_view(old(self).frames@)),
            },
    {
        let ghost s0 = frames_view(self.frames@);
        loop
            invariant
                s0 == frames_view(old(self).frames@),
                self.pending is None,
                frames_ok(frames_view(self.frames@)),
                forall|fs: spec_fn(Seq<char>) -> FileView| #[trigger] finish(fs, frames_view(self.frames@)) == finish(fs, s0),
            decreases work(frames_view(self.frames@)),
        {
            let ghost s = frames_view(self.frames@);
            if self.frames.len() == 0 {
                let empty = String::new();
                proof {
                    assert forall|fs: spec_fn(Seq<char>) -> FileView| reports(Ok(empty), #[trigger] finish(fs, s0)) by {
                        assert(finish(fs, s) == finish(fs, s0));
                        assert(empty@ =~= Seq::<char>::empty());
                    }
                }
                return CssStep::Done(Ok(empty));
            }
            let mut top = self.frames.pop().unwrap();
            proof {
                assert(frames_view(self.frames@) =~= s.drop_last());
                assert(frame_view(top) == s.last());
                assert(s[s.len() - 1] == s.last());
            }
            let ghost t = frame_view(top);
            if top.next < top.lines.len() {
                let line = top.lines[top.next].clone();
                let tr = trim_str(line.as_str());
                proof {
                    assert(views(top.lines@)[top.next as int] == line@);
                    reveal_strlit("@import");
                }
                let imp = if str_starts_with(tr.as_str(), "@import") {
                    proof {
                        assert(lines_ok(t.lines));
                        assert(starts_with(trim(t.lines[t.next as int]), "@import"@));
                    }
                    extract_import_path(tr.as_str())
                } else {
                    None
                };
                top.next = top.next + 1;
                match imp {
                    Some(p) => {
                        let full = resolve_import(top.path.as_str(), p.as_str());
                        if top.depth >= 16 {
                            crate::text::string_push(&mut top.out, '\n');
                            self.frames.push(top);
                            proof {
                                let t2 = FrameView { next: t.next + 1, out: t.out + "\n"@, ..t };
                                reveal_strlit("\n");
                                assert(t.out.push('\n') =~= t.out + "\n"@);
                                assert(frames_view(self.frames@) =~= s.update(s.len() - 1, t2));
                                assert forall|fs: spec_fn(Seq<char>) -> FileView| #[trigger] finish(fs, frames_view(self.frames@)) == finish(fs, s0) by {
                                    lemma_deep_import(fs, s, p@);
                                    assert(finish(fs, s) == finish(fs, s0));
                                }
                                lemma_work_step(s, t2);
                                lemma_frames_ok_step(s, t2);
                            }
                        } else {
                            let d = top.depth + 1;
                            self.frames.push(top);
                            self.pending = Some((full.clone(), d));
                            proof {
                                let t2 = FrameView { next: t.next + 1, ..t };
                                assert(frames_view(self.frames@) =~= s.update(s.len() - 1, t2));
                                lemma_frames_ok_step(s, t2);
                                assert forall|fs: spec_fn(Seq<char>) -> FileView| #[trigger] self.outcome(fs) == finish(fs, s0) by {
                                    lemma_import(fs, s, p@);
                                    assert(finish(fs, s) == finish(fs, s0));
                                }
                            }
                            return CssStep::Read(full);
                        }
                    },
                    None => {
                        crate::text::push_str(&mut top.out, line.as_str());
                        crate::text::string_push(&mut top.out, '\n');
                        self.frames.push(top);
                        proof {
                            let t2 = FrameView { next: t.next + 1, out: t.out + t.lines[t.next as int] + "\n"@, ..t };
                            reveal_strlit("\n");
                            assert((t.out + line@).push('\n') =~= t.out + t.lines[t.next as int] + "\n"@);
                            assert(frames_view(self.frames@) =~= s.update(s.len() - 1, t2));
                            assert forall|fs: spec_fn(Seq<char>) -> FileView| #[trigger] finish(fs, frames_view(self.frames@)) == finish(fs, s0) by {
                                lemma_plain_line(fs, s);
                                assert(finish(fs, s) == finish(fs, s0));
                            }
                            lemma_work_step(s, t2);
                            lemma_frames_ok_step(s, t2);
                        }
                    },
                }
            } else {
                if self.frames.len() == 0 {
                    proof {
                        assert forall|fs: spec_fn(Seq<char>) -> FileView| reports(Ok(top.out), #[trigger] finish(fs, s0)) by {
                            lemma_last_sheet(fs, s);
                            assert(finish(fs, s) == finish(fs, s0));
                        }
                    }
                    return CssStep::Done(Ok(top.out));
                }
                let mut parent = self.frames.pop().unwrap();
                proof {
                    assert(frame_view(parent) == s[s.len() - 2]);
                }
                crate::text::push_str(&mut parent.out, top.out.as_str());
                crate::text::string_push(&mut parent.out, '\n');
                self.frames.push(parent);
                proof {
                    let p0 = s[s.len() - 2];
                    let p2 = FrameView { out: p0.out + t.out + "\n"@, ..p0 };
                    reveal_strlit("\n");
                    assert((p0.out + t.out).push('\n') =~= p0.out + t.out + "\n"@);
                    assert(frames_view(self.frames@) =~= s.drop_last().update(s.len() - 2, p2));
                    assert forall|fs: spec_fn(Seq<char>) -> FileView| #[trigger] finish(fs, frames_view(self.frames@)) == finish(fs, s0) by {
                        lemma_sheet_done(fs, s);
                        assert(finish(fs, s) == finish(fs, s0));
                    }
                    lemma_work_pop(s, p2);
                    lemma_frames_ok_pop(s, p2);
                }
            }
        }
    }
}

/// Two stacks that differ only in a top sheet yielding the same finish the same.
proof fn lemma_same_top(fs: spec_fn(Seq<char>) -> FileView, s: Seq<FrameView>, t2: FrameView)
    requires
        s.len() > 0,
        top_total(fs, t2) == top_total(fs, s.last()),
    ensures
        finish(fs, s.update(s.len() - 1, t2)) == finish(fs, s),
{
    let s2 = s.update(s.len() - 1, t2);
    assert(s2.last() == t2);
    assert(s2.drop_last() =~= s.drop_last());
    if s.len() > 1 {
        assert(s2[s.len() - 2] == s[s.len() - 2]);
    }
}

/// A plain line is copied, followed by a newline.
proof fn lemma_plain_line(fs: spec_fn(Seq<char>) -> FileView, s: Seq<FrameView>)
    requires
        s.len() > 0,
        s.last().depth <= max_depth(),
        s.last().next < s.last().lines.len(),
        line_import(s.last().lines[s.last().next as int]) is None,
    ensures
        ({
            let t = s.last();
            finish(fs, s.update(s.len() - 1, FrameView { next: t.next + 1, out: t.out + t.lines[t.next as int] + "\n"@, ..t }))
                == finish(fs, s)
        }),
{
    let t = s.last();
    let t2 = FrameView { next: t.next + 1, out: t.out + t.lines[t.next as int] + "\n"@, ..t };
    match expand_lines(fs, t.path, t.lines, t.next + 1, t.depth) {
        Err(e) => {},
        Ok(r) => {
            assert(t.out + (t.lines[t.next as int] + "\n"@ + r) =~= t2.out + r);
        },
    }
    lemma_same_top(fs, s, t2);
}

/// An import past the depth limit reads as an empty sheet.
proof fn lemma_deep_import(fs: spec_fn(Seq<char>) -> FileView, s: Seq<FrameView>, p: Seq<char>)
    requires
        s.len() > 0,
        s.last().depth <= max_depth(),
        s.last().depth + 1 > max_depth(),
        s.last().next < s.last().lines.len(),
        line_import(s.last().lines[s.last().next as int]) == Some(p),
    ensures
        ({
            let t = s.last();
            finish(fs, s.update(s.len() - 1, FrameView { next: t.next + 1, out: t.out + "\n"@, ..t })) == finish(fs, s)
        }),
{
    let t = s.last();
    let t2 = FrameView { next: t.next + 1, out: t.out + "\n"@, ..t };
    assert(expand(fs, import_location(t.path, p), t.depth + 1) == Ok::<Seq<char>, Seq<char>>(Seq::empty()));
    match expand_lines(fs, t.path, t.lines, t.next + 1, t.depth) {
        Err(e) => {},
        Ok(r) => {
            assert(t.out + (Seq::<char>::empty() + "\n"@ + r) =~= t2.out + r);
        },
    }
    lemma_same_top(fs, s, t2);
}

/// An import within the depth limit: the stack waits for the imported sheet.
proof fn lemma_import(fs: spec_fn(Seq<char>) -> FileView, s: Seq<FrameView>, p: Seq<char>)
    requires
        s.len() > 0,
        s.last().depth + 1 <= max_depth(),
        s.last().next < s.last().lines.len(),
        line_import(s.last().lines[s.last().next as int]) == Some(p),
    ensures
        ({
            let t = s.last();
            wait_result(fs, s.update(s.len() - 1, FrameView { next: t.next + 1, ..t }), import_location(t.path, p), t.depth + 1)
                == finish(fs, s)
        }),
{
    let t = s.last();
    let t1 = FrameView { next: t.next + 1, ..t };
    let s1 = s.update(s.len() - 1, t1);
    assert(s1.last() == t1);
    match expand(fs, import_location(t.path, p), t.depth + 1) {
        Err(e) => {},
        Ok(x) => {
            let t2 = FrameView { out: t1.out + x + "\n"@, ..t1 };
            assert(s1.update(s1.len() - 1, t2) =~= s.update(s.len() - 1, t2));
            match expand_lines(fs, t.path, t.lines, t.next + 1, t.depth) {
                Err(e) => {},
                Ok(r) => {
                    assert(t.out + (x + "\n"@ + r) =~= t2.out + r);
                },
            }
            lemma_same_top(fs, s, t2);
        },
    }
}

/// A finished sheet at the bottom is the whole result.
proof fn lemma_last_sheet(fs: spec_fn(Seq<char>) -> FileView, s: Seq<FrameView>)
    requires
        s.len() == 1,
        s.last().next >= s.last().lines.len(),
    ensures
        finish(fs, s) == Ok::<Seq<char>, Seq<char>>(s.last().out),
{
    assert(s.last().out + Seq::<char>::empty() =~= s.last().out);
}

/// A finished sheet takes the place of its import in the sheet below.
proof fn lemma_sheet_done(fs: spec_fn(Seq<char>) -> FileView, s: Seq<FrameView>)
    requires
        s.len() > 1,
        s.last().next >= s.last().lines.len(),
    ensures
        ({
            let p = s[s.len() - 2];
            finish(fs, s.drop_last().update(s.len() - 2, FrameView { out: p.out + s.last().out + "\n"@, ..p }))
                == finish(fs, s)
        }),
{
    assert(s.last().out + Seq::<char>::empty() =~= s.last().out);
}

proof fn lemma_work_step(s: Seq<FrameView>, t2: FrameView)
    requires
        s.len() > 0,
        s.last().next < s.last().lines.len(),
        t2.lines == s.last().lines,
        t2.next == s.last().next + 1,
    ensures
        work(s.update(s.len() - 1, t2)) < work(s),
{
    let s2 = s.update(s.len() - 1, t2);
    assert(s2.drop_last() =~= s.drop_last());
}

proof fn lemma_work_pop(s: Seq<FrameView>, p2: FrameView)
    requires
        s.len() > 1,
        p2.lines == s[s.len() - 2].lines,
        p2.next == s[s.len() - 2].next,
        s[s.len() - 2].next <= s[s.len() - 2].lines.len(),
        s.last().next <= s.last().lines.len(),
    ensures
        work(s.drop_last().update(s.len() - 2, p2)) < work(s),
{
    let s1 = s.drop_last();
    let s2 = s1.update(s1.len() - 1, p2);
    assert(s2.drop_last() =~= s1.drop_last());
    assert(s1.last() == s[s.len() - 2]);
    assert(s2.last() == p2);
    assert(work(s) == work(s1) + (s.last().lines.len() - s.last().next) as nat + 1);
    assert(work(s1) == work(s1.drop_last()) + (s1.last().lines.len() - s1.last().next) as nat + 1);
    assert(work(s2) == work(s2.drop_last()) + (s2.last().lines.len() - s2.last().next) as nat + 1);
}

proof fn lemma_frames_ok_step(s: Seq<FrameView>, t2: FrameView)
    requires
        s.len() > 0,
        frames_ok(s),
        s.last().next < s.last().lines.len(),
        t2.lines == s.last().lines,
        t2.depth == s.last().depth,
        t2.next == s.last().next + 1,
    ensures
        frames_ok(s.update(s.len() - 1, t2)),
{
    let s2 = s.update(s.len() - 1, t2);
    assert forall|k: int| 0 <= k < s2.len() implies (#[trigger] s2[k]).depth <= max_depth() && s2[k].next <= s2[k].lines.len() && lines_ok(s2[k].lines) by {
        assert(s[k].depth <= max_depth() && s[k].next <= s[k].lines.len() && lines_ok(s[k].lines));
        assert(s[s.len() - 1] == s.last());
    }
}

proof fn lemma_frames_ok_pop(s: Seq<FrameView>, p2: FrameView)
    requires
        s.len() > 1,
        frames_ok(s),
        p2.lines == s[s.len() - 2].lines,
        p2.depth == s[s.len() - 2].depth,
        p2.next == s[s.len() - 2].next,
    ensures
        frames_ok(s.drop_last().update(s.len() - 2, p2)),
{
    let s2 = s.drop_last().update(s.len() - 2, p2);
    assert forall|k: int| 0 <= k < s2.len() implies (#[trigger] s2[k]).depth <= max_depth() && s2[k].next <= s2[k].lines.len() && lines_ok(s2[k].lines) by {
        assert(s[k].depth <= max_depth() && s[k].next <= s[k].lines.len() && lines_ok(s[k].lines));
    }
}

/// Pushing the waited-for sheet's frame yields the same as waiting for it.
proof fn lemma_finish_pushed(fs: spec_fn(Seq<char>) -> FileView, s: Seq<FrameView>, f: FrameView)
    requires
        f.next == 0,
        f.out == Seq::<char>::empty(),
        f.depth <= max_depth(),
        fs(f.path) matches FileView::Text(c) && f.lines == lines(c),
    ensures
        finish(fs, s.push(f)) == wait_result(fs, s, f.path, f.depth),
{
    let s1 = s.push(f);
    assert(s1.last() == f);
    assert(s1.drop_last() =~= s);
    match expand_lines(fs, f.path, f.lines, 0, f.depth) {
        Err(e) => {},
        Ok(r) => {
            assert(f.out + r =~= r);
            if s.len() > 0 {
                assert(s1[s1.len() - 2] == s.last());
                assert(s1.drop_last().update(s1.len() - 2, FrameView { out: s.last().out + (f.out + r) + "\n"@, ..s.last() })
                    =~= s.update(s.len() - 1, FrameView { out: s.last().out + r + "\n"@, ..s.last() }));
            }
        },
    }
}

} // verus!

verus! {

/// Whether every `@import` line of a stylesheet text can be unwrapped (a
/// stylesheet that fails this cannot be expanded).
pub fn import_lines_ok(text: &str) -> (b: bool)
    ensures
        b == lines_ok(lines(text@)),
{
    let ls = crate::text::split_lines(text);
    let mut i: usize = 0;
    proof {
        reveal_strlit("@import");
    }
    while i < ls.len()
        invariant
            i <= ls@.len(),
            views(ls@) == lines(text@),
            forall|j: int| 0 <= j < i && starts_with(trim(#[trigger] views(ls@)[j]), "@import"@) ==> import_unwrappable(trim(views(ls@)[j])),
        decreases ls.len() - i,
    {
        let t = trim_str(ls[i].as_str());
        proof {
            assert(views(ls@)[i as int] == ls@[i as int]@);
        }
        if str_starts_with(t.as_str(), "@import") && !import_line_unwrappable(t.as_str()) {
            return false;
        }
        i = i + 1;
    }
    true
}

/// Whether an `@import` line can be handed to `extract_import_path` (its
/// quoted path is not a lone quote character).
pub fn import_line_unwrappable(line: &str) -> (b: bool)
    ensures
        b == import_unwrappable(line@),
{
    let after = {
        let v = to_chars(line);
        let kw = to_chars("@import");
        proof {
            reveal_strlit("@import");
        }
        let a = crate::text::trim_start_matches_pos(&v, &kw);
        let s = string_of(&v, a, v.len());
        assert(s@ =~= trim_start_matches(line@, "@import"@));
        trim_str(s.as_str())
    };
    let rest = {
        let v = to_chars(after.as_str());
        let semi = to_chars(";");
        proof {
            reveal_strlit(";");
        }
        let b = crate::text::trim_end_matches_pos(&v, &semi, 0);
        let s = string_of(&v, 0, b);
        assert(v@.subrange(0, v@.len() as int) =~= v@);
        trim_str(s.as_str())
    };
    let rv = to_chars(rest.as_str());
    let n = rv.len();
    assert(rv@.subrange(0, n as int) =~= rv@);
    let lone = n == 1 && (rv[0] == '"' || rv[0] == '\'');
    proof {
        if n == 1 {
            assert(lone_quote(rv@) <==> (rv@[0] == '"' || rv@[0] == '\'')) by {
                if rv@[0] == '"' {
                    assert(rv@ =~= seq!['"']);
                }
                if rv@[0] == '\'' {
                    assert(rv@ =~= seq!['\'']);
                }
            }
        }
    }
    if lone {
        return false;
    }
    if is_quoted(&rv, 0, n) {
        return true;
    }
    if str_starts_with(rest.as_str(), "url(") && str_ends_with(rest.as_str(), ")") {
        proof {
            reveal_strlit("url(");
            reveal_strlit(")");
            assert(rv@.take(4)[3] == '(');
            assert(rv@[3] == '(');
            assert(rv@.skip(n - 1)[0] == ')');
            assert(rv@[n - 1] == ')');
        }
        let inner_raw = string_of(&rv, 4, n - 1);
        let inner = trim_str(inner_raw.as_str());
        let iv = to_chars(inner.as_str());
        let m = iv.len();
        proof {
            if m == 1 {
                if iv@[0] == '"' {
                    assert(iv@ =~= seq!['"']);
                }
                if iv@[0] == '\'' {
                    assert(iv@ =~= seq!['\'']);
                }
            }
        }
        return !(m == 1 && (iv[0] == '"' || iv[0] == '\''));
    }
    true
}

/// Keep the inline CSS `css` after the inline CSS loaded so far, on a line
/// of its own.
pub fn add_inline(inline: &mut String, css: &str)
    ensures
        final(inline)@ == old(inline)@ + seq!['\n'] + css@,
{
    crate::text::string_push(inline, '\n');
    crate::text::push_str(inline, css);
}

/// The CSS applied: the stylesheet `sheet`, then the inline CSS loaded so far.
pub fn with_inline(sheet: &str, inline: &str) -> (r: String)
    ensures
        r@ == sheet@ + inline@,
{
    let mut r = sheet.to_owned();
    crate::text::push_str(&mut r, inline);
    r
}

} // verus!
