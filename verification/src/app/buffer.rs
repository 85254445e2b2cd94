//! An opened file held as lines.

use vstd::prelude::*;

verus! {

#[verifier::external_type_specification]
#[verifier::external_body]
pub struct ExSystemTime(std::time::SystemTime);

/// `SystemTime::UNIX_EPOCH`.
#[verifier::external_body]
fn unix_epoch() -> std::time::SystemTime {
    std::time::SystemTime::UNIX_EPOCH
}

/// A file opened in the views, under its content-derived name.
#[derive(Debug)]
pub struct Buffer {
    /// The file's own name (e.g. `README.md`).
    pub original_name: String,
    /// The path the file was read from.
    pub original_path: String,
    /// Where a copy of the content is written.
    pub temp_path: String,
    /// The content, line by line.
    pub lines: Vec<String>,
    /// When the file was last modified.
    pub last_modified: std::time::SystemTime,
}

impl Buffer {
    /// A buffer with the given names and lines, last modified at the epoch.
    pub fn new(
        original_name: String,
        original_path: String,
        temp_path: String,
        lines: Vec<String>,
    ) -> (r: Self)
        ensures
            r.original_name == original_name,
            r.original_path == original_path,
            r.temp_path == temp_path,
            r.lines == lines,
    {
        Buffer { original_name, original_path, temp_path, lines, last_modified: unix_epoch() }
    }
}

impl Default for Buffer {
    fn default() -> (r: Self)
        ensures
            r.original_name@.len() == 0,
            r.original_path@.len() == 0,
            r.temp_path@.len() == 0,
            r.lines@.len() == 0,
    {
        Buffer::new(String::new(), String::new(), String::new(), Vec::new())
    }
}

} // verus!
