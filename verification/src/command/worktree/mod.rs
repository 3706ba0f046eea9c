//! The switch command's verified core: the worktree records, the
//! porcelain parser, and the derivation of the target path from the
//! loaded configuration.

pub use crate::worktree::{find_worktree_for_branch, parse_porcelain, Worktree};

use crate::config::Config;
use crate::lifecycle::target_spec;
use crate::strutil::concat_str;
use crate::target::derive_path_segment;
use vstd::prelude::*;

verus! {

/// Why no target path could be derived.
#[derive(Debug)]
pub enum TargetPathError {
    ConfigNotLoaded,
}

/// The directory a worktree for `branch` belongs at: the configured
/// root joined with the segment derived from the repository's top-level
/// path and the branch name. Fails when no configuration is loaded.
pub fn compute_target_path(config: &Config, toplevel: &str, branch: &str) -> (r: Result<
    String,
    TargetPathError,
>)
    ensures
        match config {
            Config::Omit => r matches Err(TargetPathError::ConfigNotLoaded),
            Config::Loaded(d, _) => r matches Ok(p) && p@ == target_spec(
                d.worktree_root@,
                toplevel@,
                branch@,
            ),
        },
{
    match config {
        Config::Omit => Err(TargetPathError::ConfigNotLoaded),
        Config::Loaded(d, _) => {
            let seg = derive_path_segment(toplevel, branch);
            let mut p = concat_str(d.worktree_root.as_str(), "/");
            p.append(seg.as_str());
            Ok(p)
        },
    }
}

} // verus!
