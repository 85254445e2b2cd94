//! Naming of archive members and of created archives, and reading the
//! members of an archive.

use vstd::prelude::*;
use crate::paths::{
    joined, path_join, path_strip_prefix, path_with_added_extension, strip_prefix_of,
    with_added_extension_of,
};

verus! {

/// The name under which `path`, found while walking `base_dir`, is stored
/// in an archive of `base_dir`: its path relative to `base_dir` (the path
/// itself when it is not under it); `None` for `base_dir` itself.
pub open spec fn member_name(base_dir: Seq<char>, path: Seq<char>) -> Option<Seq<char>> {
    let rel = match strip_prefix_of(path, base_dir) {
        Some(p) => p,
        None => path,
    };
    if rel.len() == 0 {
        None
    } else {
        Some(rel)
    }
}

/// The name under which `path` is stored in an archive of `base_dir`.
pub fn archive_member_name(base_dir: &str, path: &str) -> (r: Option<String>)
    ensures
        match r {
            Some(n) => member_name(base_dir@, path@) == Some(n@),
            None => member_name(base_dir@, path@) is None,
        },
{
    let rel = match path_strip_prefix(path, base_dir) {
        Some(p) => p,
        None => path.to_owned(),
    };
    if rel.as_str().is_empty() {
        None
    } else {
        Some(rel)
    }
}

/// Where the archive named `name` of directory `base_dir` is written:
/// `base_dir` joined with `name`, with the extension `tar.gz` added.
pub fn archive_destination(base_dir: &str, name: &str) -> (r: String)
    ensures
        r@ == with_added_extension_of(joined(base_dir@, name@), "tar.gz"@),
{
    let j = path_join(base_dir, name);
    proof {
        reveal_strlit("tar.gz");
    }
    path_with_added_extension(j.as_str(), "tar.gz")
}

/// The member paths of a gzip-compressed tar archive held in `bytes`, in
/// archive order, as `tar::Archive::entries` reads them through
/// `flate2::read::GzDecoder`; `None` when the bytes are not such an archive
/// or a member header or path cannot be read.
pub uninterp spec fn gz_tar_paths(bytes: Seq<u8>) -> Option<Seq<Seq<char>>>;

/// Reads the member paths of a `.tar.gz` held in memory with `tar` and
/// `flate2`, each path made text lossily.
#[verifier::external_body]
fn read_gz_tar_paths(bytes: &[u8]) -> (r: Option<Vec<String>>)
    ensures
        match r {
            Some(v) => gz_tar_paths(bytes@) == Some(v@.map_values(|s: String| s@)),
            None => gz_tar_paths(bytes@) is None,
        },
{
    let mut archive = tar::Archive::new(flate2::read::GzDecoder::new(bytes));
    let mut paths = Vec::new();
    for entry in archive.entries().ok()? {
        paths.push(entry.ok()?.path().ok()?.to_string_lossy().into_owned());
    }
    Some(paths)
}

/// The member paths of a `.tar.gz` archive whose content is `bytes`, in
/// archive order; an error when the content cannot be read as one.
pub fn list_tar_gz_contents(bytes: &[u8]) -> (r: Result<Vec<String>, ()>)
    ensures
        match r {
            Ok(v) => gz_tar_paths(bytes@) == Some(v@.map_values(|s: String| s@)),
            Err(_) => gz_tar_paths(bytes@) is None,
        },
{
    match read_gz_tar_paths(bytes) {
        Some(v) => Ok(v),
        None => Err(()),
    }
}

} // verus!
