//! Shared pieces behind the commands: the worktree record type, the
//! porcelain parser, and the record collection. Running the
//! version-control tool itself is an outer layer's work.

pub mod worktree;

pub use crate::worktree::{find_worktree_for_branch, parse_porcelain, Worktree};
