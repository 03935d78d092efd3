//! Path arithmetic on text. The functions here only take paths apart and put
//! them together by the rules of the platform that the library is built
//! for; none of them looks at what is on disk. What they compute is not
//! spelled out here: each result has a name, and all that is claimed of it
//! is that equal arguments give equal results.

use pathdiff::diff_paths;
use std::path::Path;
use vstd::prelude::*;

verus! {

/// The path that `std::path::Path::join` builds from `base` and `path`.
pub uninterp spec fn joined_path(base: Seq<char>, path: Seq<char>) -> Seq<char>;

/// The extension that `std::path::Path::extension` finds in `path`, if any.
pub uninterp spec fn path_extension(path: Seq<char>) -> Option<Seq<char>>;

/// The directory that `std::path::Path::parent` finds above `path`, if any.
pub uninterp spec fn parent_directory(path: Seq<char>) -> Option<Seq<char>>;

/// The path with which `pathdiff::diff_paths` leads from `base` to `path`,
/// if there is one.
pub uninterp spec fn relative_path(path: Seq<char>, base: Seq<char>) -> Option<Seq<char>>;

/// `std::path::Path::join` on `base` with `path`. Both parts are text, so
/// the joined path is text as well. The result depends on the two arguments
/// alone.
#[verifier::external_body]
pub(crate) fn join(base: &str, path: &str) -> (joined: String)
    ensures
        joined@ == joined_path(base@, path@),
{
    Path::new(base).join(path).to_string_lossy().into_owned()
}

/// `std::path::Path::extension` on `path`. The result depends on the
/// argument alone.
#[verifier::external_body]
pub(crate) fn extension(path: &str) -> (found: Option<String>)
    ensures
        found.deep_view() == path_extension(path@),
{
    Path::new(path).extension().and_then(|e| e.to_str()).map(|e| e.to_string())
}

/// `std::path::Path::parent` on `path`. The result depends on the argument
/// alone.
#[verifier::external_body]
pub(crate) fn parent(path: &str) -> (found: Option<String>)
    ensures
        found.deep_view() == parent_directory(path@),
{
    Path::new(path).parent().and_then(|p| p.to_str()).map(|p| p.to_string())
}

/// `pathdiff::diff_paths` from `base` to `path`. It compares the components
/// of the two paths and reads nothing from disk, so the result depends on
/// the two arguments alone; a path made of components of two texts is text.
#[verifier::external_body]
pub(crate) fn relative_to(path: &str, base: &str) -> (found: Option<String>)
    ensures
        found.deep_view() == relative_path(path@, base@),
{
    diff_paths(path, base).and_then(|p| p.to_str().map(|p| p.to_string()))
}

} // verus!
