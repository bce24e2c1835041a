//! Filesystem paths held as strings, with the two path operations the engine
//! relies on: joining a name onto a directory and taking a file's extension.
use vstd::prelude::*;
use crate::text::push_str;

verus! {

/// `Path::join`: an absolute `name` replaces `base`; otherwise `name` is
/// appended, with a `/` in between unless `base` is empty or already ends in one.
pub open spec fn join(base: Seq<char>, name: Seq<char>) -> Seq<char> {
    if name.len() > 0 && name[0] == '/' {
        name
    } else if base.len() == 0 || base.last() == '/' {
        base + name
    } else {
        base + seq!['/'] + name
    }
}

/// `PathBuf::from(base).join(name)`, as a string.
pub fn join_path(base: &str, name: &str) -> (r: String)
    ensures
        r@ == join(base@, name@),
{
    let nv = crate::text::to_chars(name);
    if nv.len() > 0 && nv[0] == '/' {
        return name.to_owned();
    }
    let bv = crate::text::to_chars(base);
    let mut r = base.to_owned();
    if bv.len() > 0 && bv[bv.len() - 1] != '/' {
        crate::text::string_push(&mut r, '/');
    }
    push_str(&mut r, name);
    assert(r@ =~= join(base@, name@));
    r
}

/// The text after the last `/` of `p` (all of `p` when it has none).
pub open spec fn final_segment(p: Seq<char>) -> Seq<char>
    decreases p.len(),
{
    if p.len() == 0 {
        p
    } else if p.last() == '/' {
        Seq::empty()
    } else {
        final_segment(p.drop_last()).push(p.last())
    }
}

/// `p` up to and including its last `/` (empty when it has none).
pub open spec fn dir_part(p: Seq<char>) -> Seq<char> {
    p.take(p.len() - final_segment(p).len())
}

/// A path whose final segment is a plain name: not empty (so `p` does not end
/// in `/`), and neither `.` nor `..`. Its file name is that segment.
pub open spec fn names_file(p: Seq<char>) -> bool {
    let n = final_segment(p);
    n.len() > 0 && n != seq!['.'] && n != seq!['.', '.']
}

/// Index of the last `.` in `n`, or -1.
pub open spec fn last_dot(n: Seq<char>) -> int
    decreases n.len(),
{
    if n.len() == 0 {
        -1
    } else if n.last() == '.' {
        n.len() - 1
    } else {
        last_dot(n.drop_last())
    }
}

/// The extension of a file name: what follows its last `.`; none when it has
/// no `.`, or when its only `.` is the first char (a hidden file).
pub open spec fn name_extension(n: Seq<char>) -> Option<Seq<char>> {
    let k = last_dot(n);
    if k <= 0 {
        None
    } else {
        Some(n.skip(k + 1))
    }
}

/// What `Path::extension` gives for the path `p`, as a string.
pub uninterp spec fn path_extension(p: Seq<char>) -> Option<Seq<char>>;

/// `Path::extension` (taken as UTF-8): the extension of the final component
/// of `p`. Where that component is a plain name (`names_file`), the contract
/// states the documented rule: the part after the last `.`, none without a
/// `.` or for a name whose only `.` leads. Paths ending in `/`, `.` or `..`
/// are left to the name alone.
#[verifier::external_body]
pub(crate) fn extension_of(p: &str) -> (r: Option<String>)
    ensures
        match r {
            Some(e) => path_extension(p@) == Some(e@),
            None => path_extension(p@) is None,
        },
        names_file(p@) ==> match name_extension(final_segment(p@)) {
            Some(e) => r is Some && r.unwrap()@ == e,
            None => r is None,
        },
{
    std::path::Path::new(p).extension().and_then(|e| e.to_str()).map(|e| e.to_owned())
}

/// What `Path::parent` gives for the path `p`, as a string.
pub uninterp spec fn path_parent(p: Seq<char>) -> Option<Seq<char>>;

/// A path named by `names_file` whose directory part is plain too: empty,
/// the root `/`, or text that ends neither in `/` nor in a `.` segment.
pub open spec fn plain_parent(p: Seq<char>) -> bool {
    let d = dir_part(p);
    names_file(p) && (d.len() <= 1 || (d[d.len() - 2] != '/' && final_segment(d.drop_last())
        != seq!['.']))
}

/// The parent of a `plain_parent` path: `""` for a bare name, `/` for a name
/// under the root, else the text before the last `/`.
pub open spec fn plain_parent_of(p: Seq<char>) -> Seq<char> {
    let d = dir_part(p);
    if d.len() <= 1 {
        d
    } else {
        d.drop_last()
    }
}

/// `Path::parent` (the path without its final component; `None` for a root
/// or empty path). Where the path is plain (`plain_parent`), the contract
/// states the result: `Some("")` for a bare name, `Some("/")` under the root,
/// else the text before the last `/`. Other paths are left to the name alone.
#[verifier::external_body]
pub(crate) fn parent_of(p: &str) -> (r: Option<String>)
    ensures
        match r {
            Some(d) => path_parent(p@) == Some(d@),
            None => path_parent(p@) is None,
        },
        plain_parent(p@) ==> r is Some && r.unwrap()@ == plain_parent_of(p@),
{
    std::path::Path::new(p).parent().map(|d| d.to_string_lossy().into_owned())
}

/// Whether the extension of `p` is exactly `ext`.
pub open spec fn has_extension(p: Seq<char>, ext: Seq<char>) -> bool {
    path_extension(p) == Some(ext)
}

/// Whether the file at `p` has the extension `ext`.
pub fn path_has_extension(p: &str, ext: &str) -> (b: bool)
    ensures
        b == has_extension(p@, ext@),
{
    match extension_of(p) {
        Some(e) => crate::text::str_eq(e.as_str(), ext),
        None => false,
    }
}

} // verus!
