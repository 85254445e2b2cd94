//! Path decomposition, on paths held as text.

use vstd::prelude::*;

verus! {

/// The path without its final component, as `std::path::Path::parent`
/// computes it (`None` when the path ends in a root or prefix, or is empty).
pub uninterp spec fn parent_of(p: Seq<char>) -> Option<Seq<char>>;

/// The final component of a path, as `std::path::Path::file_name` computes
/// it, or the empty text when it has none.
pub uninterp spec fn file_name_of(p: Seq<char>) -> Seq<char>;

/// `Path::parent`.  The contract ties the result to `parent_of`; the standard
/// library documents that the root and the empty path have no parent.
#[verifier::external_body]
pub(crate) fn path_parent(p: &str) -> (r: Option<String>)
    ensures
        match r {
            Some(q) => parent_of(p@) == Some(q@),
            None => parent_of(p@) is None,
        },
        p@ == seq!['/'] ==> r is None,
        p@.len() == 0 ==> r is None,
{
    std::path::Path::new(p).parent().map(|q| q.to_string_lossy().into_owned())
}

/// `Path::file_name`, with the empty text when there is no final component
/// (the standard library documents that the empty path has none).
#[verifier::external_body]
pub(crate) fn path_file_name(p: &str) -> (r: String)
    ensures
        r@ == file_name_of(p@),
        p@.len() == 0 ==> r@.len() == 0,
{
    std::path::Path::new(p).file_name().unwrap_or_default().to_string_lossy().into_owned()
}

} // verus!

verus! {

/// `path` relative to `base`, as `Path::strip_prefix` computes it (`None`
/// when `base` is not a prefix of `path`, component by component).
pub uninterp spec fn strip_prefix_of(path: Seq<char>, base: Seq<char>) -> Option<Seq<char>>;

/// `base` followed by `name`, as `Path::join` computes it.
pub uninterp spec fn joined(base: Seq<char>, name: Seq<char>) -> Seq<char>;

/// `Path::strip_prefix`.
#[verifier::external_body]
pub(crate) fn path_strip_prefix(path: &str, base: &str) -> (r: Option<String>)
    ensures
        match r {
            Some(q) => strip_prefix_of(path@, base@) == Some(q@),
            None => strip_prefix_of(path@, base@) is None,
        },
{
    std::path::Path::new(path).strip_prefix(base).ok().map(|q| q.to_string_lossy().into_owned())
}

/// `Path::join`.
#[verifier::external_body]
pub(crate) fn path_join(base: &str, name: &str) -> (r: String)
    ensures
        r@ == joined(base@, name@),
{
    std::path::Path::new(base).join(name).to_string_lossy().into_owned()
}

/// The extension of a path's final component, as `Path::extension`
/// computes it (`None` when there is no final component, no `.` in it, or
/// only a leading one).
pub uninterp spec fn extension_of(p: Seq<char>) -> Option<Seq<char>>;

/// `Path::extension`.
#[verifier::external_body]
pub(crate) fn path_extension(p: &str) -> (r: Option<String>)
    ensures
        match r {
            Some(e) => extension_of(p@) == Some(e@),
            None => extension_of(p@) is None,
        },
{
    std::path::Path::new(p).extension().map(|e| e.to_string_lossy().into_owned())
}

/// `p` with `ext` added after the extension of its final component, as
/// `Path::with_added_extension` computes it.
pub uninterp spec fn with_added_extension_of(p: Seq<char>, ext: Seq<char>) -> Seq<char>;

/// `Path::with_added_extension`, which panics when the extension holds a
/// path separator (`/` on the platforms this program runs on).
#[verifier::external_body]
pub(crate) fn path_with_added_extension(p: &str, ext: &str) -> (r: String)
    requires
        forall|i: int| 0 <= i < ext@.len() ==> ext@[i] != '/',
    ensures
        r@ == with_added_extension_of(p@, ext@),
{
    std::path::Path::new(p).with_added_extension(ext).to_string_lossy().into_owned()
}

} // verus!
