//! File system paths compared and combined as `std::path` does, by components.
use vstd::prelude::*;

verus! {

/// Whether `path` starts with the components of `base` (what `Path::starts_with` returns).
pub uninterp spec fn path_starts_with(path: Seq<char>, base: Seq<char>) -> bool;

/// Whether `path` is absolute (what `Path::is_absolute` returns).
pub uninterp spec fn path_is_absolute(path: Seq<char>) -> bool;

/// `path` appended to `base` (what `Path::join` returns, as text).
pub uninterp spec fn path_joined(base: Seq<char>, path: Seq<char>) -> Seq<char>;

/// Calls `Path::starts_with`: whether the components of `base` are a prefix of those of `path`.
#[verifier::external_body]
pub(crate) fn starts_with(path: &str, base: &str) -> (r: bool)
    ensures
        r == path_starts_with(path@, base@),
{
    std::path::Path::new(path).starts_with(base)
}

/// Calls `Path::is_absolute`.
#[verifier::external_body]
pub(crate) fn is_absolute(path: &str) -> (r: bool)
    ensures
        r == path_is_absolute(path@),
{
    std::path::Path::new(path).is_absolute()
}

/// Calls `Path::join`, and takes the joined path as text.
#[verifier::external_body]
pub(crate) fn join(base: &str, path: &str) -> (r: String)
    ensures
        r@ == path_joined(base@, path@),
{
    std::path::Path::new(base).join(path).to_string_lossy().into_owned()
}

/// Whether two paths have the same components (what `==` on `Path` returns).
pub uninterp spec fn same_path(a: Seq<char>, b: Seq<char>) -> bool;

/// Compares two paths with `==` on `Path`: component by component.
#[verifier::external_body]
pub(crate) fn paths_equal(a: &str, b: &str) -> (r: bool)
    ensures
        r == same_path(a@, b@),
{
    std::path::Path::new(a) == std::path::Path::new(b)
}

/// `path` taken relative to `base_dir`, unless it is absolute.
pub open spec fn resolved(base_dir: Seq<char>, path: Seq<char>) -> Seq<char> {
    if path_is_absolute(path) {
        path
    } else {
        path_joined(base_dir, path)
    }
}

/// `path` as it stands when absolute, else joined to `base_dir`.
pub fn resolve_path(base_dir: &str, path: &str) -> (r: String)
    ensures
        r@ == resolved(base_dir@, path@),
{
    if is_absolute(path) {
        path.to_owned()
    } else {
        join(base_dir, path)
    }
}

} // verus!
