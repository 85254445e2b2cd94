//! Messages between the interface and the background worker.

use vstd::prelude::*;
use crate::tree::FileItem;

verus! {

/// What the worker sends back to the interface.
pub enum WorkerEvent {
    /// Entries found by a deep search, tagged with the search they answer.
    SearchResultBatch { items: Vec<FileItem>, search_id: usize },
}

/// What the interface asks of the worker.
pub enum InspectorCommand {
    Stop,
    /// Find the entries under `dir` whose name contains `query`.
    DeepSearch { query: String, dir: String, search_id: usize },
    /// Mount a remote directory (`user@host:/path`) at `mount_point`.
    MountSshfs { connection_string: String, mount_point: String },
}

} // verus!
