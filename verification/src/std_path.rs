//! The parts of `std::path` that the shell modules use: a path's parent, its file name,
//! and equality of paths (which compares components, not text).

use vstd::prelude::*;
use crate::text::opt_view;

verus! {

/// The text of `Path::parent` of a path, as the target platform defines it.
pub uninterp spec fn std_path_parent(path: Seq<char>) -> Option<Seq<char>>;

/// The text of `Path::file_name` of a path, as the target platform defines it.
pub uninterp spec fn std_path_file_name(path: Seq<char>) -> Option<Seq<char>>;

/// Whether `Path` equality (component by component) holds between two paths.
pub uninterp spec fn std_paths_equal(a: Seq<char>, b: Seq<char>) -> bool;

/// `std::path::Path::parent`, as text. A path made from a string is valid Unicode and so
/// is each of its parts, so the conversion loses nothing.
#[verifier::external_body]
pub(crate) fn path_parent(path: &str) -> (r: Option<String>)
    ensures
        opt_view(r) == std_path_parent(path@),
{
    std::path::Path::new(path).parent().map(|p| p.to_string_lossy().into_owned())
}

/// `std::path::Path::file_name`, as text.
#[verifier::external_body]
pub(crate) fn path_file_name(path: &str) -> (r: Option<String>)
    ensures
        opt_view(r) == std_path_file_name(path@),
{
    std::path::Path::new(path).file_name().map(|n| n.to_string_lossy().into_owned())
}

/// `==` on `std::path::Path`.
#[verifier::external_body]
pub(crate) fn paths_equal(a: &str, b: &str) -> (r: bool)
    ensures
        r == std_paths_equal(a@, b@),
{
    std::path::Path::new(a) == std::path::Path::new(b)
}

/// The text of `Path::join` of two paths, as the target platform defines it.
pub uninterp spec fn std_path_join(base: Seq<char>, tail: Seq<char>) -> Seq<char>;

/// The text of `Path::extension` of a path, as the target platform defines it.
pub uninterp spec fn std_path_extension(path: Seq<char>) -> Option<Seq<char>>;

/// `std::path::Path::join`, as text.
#[verifier::external_body]
pub(crate) fn path_join(base: &str, tail: &str) -> (r: String)
    ensures
        r@ == std_path_join(base@, tail@),
{
    std::path::Path::new(base).join(tail).to_string_lossy().into_owned()
}

/// `std::path::Path::extension`, as text.
#[verifier::external_body]
pub(crate) fn path_extension(path: &str) -> (r: Option<String>)
    ensures
        opt_view(r) == std_path_extension(path@),
{
    std::path::Path::new(path).extension().map(|e| e.to_string_lossy().into_owned())
}

} // verus!
