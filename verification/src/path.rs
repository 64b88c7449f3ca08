//! File-system paths as text.

use vstd::prelude::*;

verus! {

/// The path that `std::path::Path::join` makes of the path `base` and the
/// path `part`, as text. It depends on the two paths alone. The rules are
/// those of the platform the library was built for, which fix the separator
/// and what counts as an absolute path; they are not spelled out here.
pub uninterp spec fn path_join(base: Seq<char>, part: Seq<char>) -> Seq<char>;

/// Joins two paths with `std::path::Path::join`. Both paths are text, so the
/// joined path is text as well, and it is `path_join` of the two. That is a
/// name for what std computes, and nothing about it is proved here.
#[verifier::external_body]
pub(crate) fn join(base: &str, part: &str) -> (joined: String)
    ensures
        joined@ == path_join(base@, part@),
{
    std::path::Path::new(base).join(part).to_string_lossy().into_owned()
}

} // verus!
