//! The configuration subcommands. Viewing and interactive setup read
//! the terminal and the disk, so they are carried out by an outer layer;
//! the command forms themselves are plain data.

use vstd::prelude::*;

verus! {

/// What the configuration command was asked to do.
pub enum ConfigCommands {
    /// Show the configuration file path and contents.
    View,
    /// Run the interactive setup again.
    Setup,
}

} // verus!
