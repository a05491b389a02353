//! Read-only queries over a repository's history: branches, commit logs,
//! diffs, blame, file trees, stashes and free-text search.

pub mod blame;
pub mod branches;
pub mod content;
pub mod dates;
pub mod diff;
pub mod log;
pub mod model;
pub mod refs;
pub mod report;
pub mod search;
pub mod session;
pub mod staged;
pub mod stash;
pub mod store;
pub mod text;
pub mod tree;
