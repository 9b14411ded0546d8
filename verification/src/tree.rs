//! The remote source-tree listing: one flat list of entries for an entire
//! repository branch, fetched once per run and never mutated.

use vstd::prelude::*;

verus! {

/// One leaf in the remote source tree: a slash-separated path, the entry
/// kind (`blob` for a file, `tree` for a directory), and bookkeeping fields
/// carried through from the listing call.
pub struct TreeEntry {
    pub path: String,
    pub mode: String,
    pub type_field: String,
    pub sha: String,
    pub url: String,
    pub size: Option<i64>,
}

/// One recursive listing of a repository branch.
pub struct RepositoryTree {
    pub sha: String,
    pub url: String,
    pub tree: Vec<TreeEntry>,
    pub truncated: bool,
}

} // verus!
