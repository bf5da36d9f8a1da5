//! Path questions answered by `std::path::Path`, and joining a name onto a
//! directory.

use vstd::prelude::*;
use std::path::Path;
use crate::browser::{join_path, path_join};
use crate::text::{str_chars, string_of};

verus! {

/// The text of an optional string.
pub open spec fn text_opt(o: Option<String>) -> Option<Seq<char>> {
    match o {
        Some(s) => Some(s@),
        None => None,
    }
}

/// What `Path::starts_with` answers for path `p` and prefix `base`.
pub uninterp spec fn path_has_prefix(p: Seq<char>, base: Seq<char>) -> bool;

/// What `Path`'s `==` answers for `a` and `b`.
pub uninterp spec fn paths_equal(a: Seq<char>, b: Seq<char>) -> bool;

/// What `Path::parent` gives for `p`, as text.
pub uninterp spec fn parent_path(p: Seq<char>) -> Option<Seq<char>>;

/// What `Path::file_name` gives for `p`, as text.
pub uninterp spec fn file_name_of(p: Seq<char>) -> Option<Seq<char>>;

/// What `Path::components` gives for `p`, each component as text.
pub uninterp spec fn components_of(p: Seq<char>) -> Seq<Seq<char>>;

/// `Path::starts_with`: whether `base` is a prefix of `p`, whole path
/// components at a time. Beyond its name this states what the
/// documentation shows: a path starts with itself.
#[verifier::external_body]
pub(crate) fn starts_with_path(p: &str, base: &str) -> (r: bool)
    ensures
        r == path_has_prefix(p@, base@),
        p@ == base@ ==> r,
{
    Path::new(p).starts_with(Path::new(base))
}

/// `Path`'s `==`: whether two paths have the same components. Beyond its
/// name this states what the documentation shows: equal text is the same
/// path.
#[verifier::external_body]
pub(crate) fn same_path(a: &str, b: &str) -> (r: bool)
    ensures
        r == paths_equal(a@, b@),
        a@ == b@ ==> r,
{
    Path::new(a) == Path::new(b)
}

/// `Path::parent`: the path without its final component, `None` for a
/// root or an empty path. Only its name is stated.
#[verifier::external_body]
pub(crate) fn parent_of(p: &str) -> (r: Option<String>)
    ensures
        text_opt(r) == parent_path(p@),
{
    Path::new(p).parent().map(|q| q.to_string_lossy().to_string())
}

/// `Path::file_name`: the final component of a path when it is a normal
/// name, `None` when the path ends in `..` or is a root. Only its name is
/// stated.
#[verifier::external_body]
pub(crate) fn file_name(p: &str) -> (r: Option<String>)
    ensures
        text_opt(r) == file_name_of(p@),
{
    Path::new(p).file_name().map(|n| n.to_string_lossy().to_string())
}

/// `Path::components`: the parts of a path (a leading `/` as a root part,
/// then each name; repeated separators and `.` parts dropped). Only its name
/// is stated.
#[verifier::external_body]
pub(crate) fn path_components(p: &str) -> (r: Vec<String>)
    ensures
        r@.map_values(|c: String| c@) == components_of(p@),
{
    Path::new(p).components().map(|c| c.as_os_str().to_string_lossy().to_string()).collect()
}

/// `parts` with `sep` between each two of them.
pub open spec fn joined(parts: Seq<Seq<char>>, sep: Seq<char>) -> Seq<char>
    decreases parts.len(),
{
    if parts.len() == 0 {
        Seq::empty()
    } else if parts.len() == 1 {
        parts[0]
    } else {
        joined(parts.drop_last(), sep) + sep + parts.last()
    }
}

/// The breadcrumb shown for the directory `path`: its components joined
/// with `" > "`.
pub fn breadcrumb(path: &str) -> (r: String)
    ensures
        r@ == joined(components_of(path@), " > "@),
{
    let parts = path_components(path);
    let ghost views = parts@.map_values(|c: String| c@);
    let mut out: Vec<char> = Vec::new();
    let mut i: usize = 0;
    while i < parts.len()
        invariant
            i <= parts@.len(),
            views == parts@.map_values(|c: String| c@),
            out@ == joined(views.take(i as int), " > "@),
        decreases parts@.len() - i,
    {
        if i > 0 {
            crate::text::push_str(&mut out, " > ");
        }
        crate::text::push_str(&mut out, parts[i].as_str());
        proof {
            assert(views.take(i + 1).drop_last() =~= views.take(i as int));
            if i == 0 {
                assert(views.take(1) =~= seq![views[0]]);
            }
        }
        i = i + 1;
    }
    assert(views.take(parts@.len() as int) =~= views);
    string_of(&out)
}

/// `name` joined onto the directory `base` (see `path_join`).
pub fn join(base: &str, name: &str) -> (r: String)
    ensures
        r@ == path_join(base@, name@),
{
    let b = str_chars(base);
    let n = str_chars(name);
    string_of(&join_path(&b, &n))
}

} // verus!
