//! A verified core for a git worktree manager: parsing the porcelain
//! worktree listing, deriving stable worktree paths, resolving branch
//! names, and the decision logic for switching to and removing worktrees.

pub mod command;
pub mod config;
pub mod lifecycle;
pub mod resolve;
pub mod shell;
pub mod strutil;
pub mod target;
pub mod utility;
pub mod worktree;
