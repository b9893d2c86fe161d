//! Lexical path arithmetic, delegated to `std::path`.
//!
//! Paths are held as text. Their views are `Seq<char>`; the two operations the
//! library needs from `std::path` are named here and otherwise left opaque.
//! Both work on the text alone and never touch the filesystem.

use vstd::prelude::*;

verus! {

/// What `std::path::Path::parent` yields for the path with text `path`:
/// the path without its final component, or `None` where the path ends in a
/// root or is empty.
pub uninterp spec fn parent_of(path: Seq<char>) -> Option<Seq<char>>;

/// What `std::path::Path::join` yields when `part` is adjoined to `base`.
pub uninterp spec fn joined(base: Seq<char>, part: Seq<char>) -> Seq<char>;

/// The ancestor `depth` levels above `path`: `path` itself at depth 0, its
/// parent at depth 1, and so on. `None` as soon as a level has no parent.
pub open spec fn ancestor_of(path: Seq<char>, depth: nat) -> Option<Seq<char>>
    decreases depth,
{
    if depth == 0 {
        Some(path)
    } else {
        match parent_of(path) {
            Some(dir) => ancestor_of(dir, (depth - 1) as nat),
            None => None,
        }
    }
}

/// Calls `std::path::Path::parent` on the path spelled by `path` and hands the
/// result back as text. The contract only gives the result its name,
/// `parent_of`; nothing is claimed about what the parent of a given path is.
#[verifier::external_body]
pub(crate) fn parent(path: &str) -> (dir: Option<String>)
    ensures
        dir.deep_view() == parent_of(path@),
{
    match std::path::Path::new(path).parent() {
        Some(dir) => Some(dir.to_string_lossy().into_owned()),
        None => None,
    }
}

/// Calls `std::path::Path::join` to adjoin `part` to `base` and hands the
/// result back as text. The contract only gives the result its name, `joined`.
#[verifier::external_body]
pub(crate) fn join(base: &str, part: &str) -> (path: String)
    ensures
        path@ == joined(base@, part@),
{
    std::path::Path::new(base).join(part).to_string_lossy().into_owned()
}

/// The ancestor `depth` levels above `path`, if the path is that deep.
pub fn ancestor(path: &str, depth: usize) -> (dir: Option<String>)
    ensures
        dir.deep_view() == ancestor_of(path@, depth as nat),
{
    let mut current: String = path.to_owned();
    let mut climbed: usize = 0;
    while climbed < depth
        invariant
            climbed <= depth,
            ancestor_of(path@, depth as nat) == ancestor_of(current@, (depth - climbed) as nat),
        decreases depth - climbed,
    {
        match parent(current.as_str()) {
            Some(dir) => {
                current = dir;
                climbed = climbed + 1;
            },
            None => {
                return None;
            },
        }
    }
    Some(current)
}

} // verus!
