//! The commands the tool offers, as plain data, and the decisions that
//! belong to them. Argument parsing and dispatch are an outer layer.

pub mod completion;
pub mod config;
pub mod shell;
pub mod worktree;

use vstd::prelude::*;

verus! {

/// A shell supported by the completion generator.
#[derive(Debug, Clone, Copy, PartialEq, Eq)]
pub enum ShellType {
    Bash,
    Zsh,
    Fish,
}

/// The subcommands of the tool.
pub enum Commands {
    /// Inspect or reset the configuration.
    Config(config::ConfigCommands),
    /// List all worktrees.
    Ls,
    /// Switch to the worktree of a branch; with no branch, to the
    /// default branch. Prints the worktree path on success.
    Sw { branch: Option<String>, create: bool, main: bool },
    /// Remove a worktree by branch name.
    Rm { branch: String, delete_branch: bool, force_delete_branch: bool },
    /// Print shell integration code for a shell.
    Init { shell: String },
    /// Print the current worktree and branch.
    Current,
}

/// The parsed command line.
pub struct Cli {
    pub command: Commands,
}

/// Commands that run before any configuration exists, and so must not
/// trigger loading or first-run setup.
pub open spec fn omits_config_spec(cmd: Commands) -> bool {
    match cmd {
        Commands::Init { .. } => true,
        Commands::Config(config::ConfigCommands::Setup) => true,
        _ => false,
    }
}

/// Decide whether configuration loading is skipped for this command.
pub fn command_omits_config(cmd: &Commands) -> (r: bool)
    ensures
        r == omits_config_spec(*cmd),
{
    match cmd {
        Commands::Init { .. } => true,
        Commands::Config(config::ConfigCommands::Setup) => true,
        _ => false,
    }
}

} // verus!
