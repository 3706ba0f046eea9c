//! Configuration values the lifecycle consumes: a resolved worktree-root
//! directory and the location of the configuration file. Reading,
//! writing and prompting for the configuration are outside collaborators;
//! this module only holds and inspects the resolved values.

use crate::strutil::concat_str;
use vstd::prelude::*;

verus! {

/// The settings stored for this tool: the root directory under which all
/// worktrees are placed.
#[derive(Debug, PartialEq, Eq)]
pub struct ConfigData {
    pub worktree_root: String,
}

/// The configuration as a command sees it: omitted (for commands that
/// must run before any configuration exists) or loaded from a file at a
/// known path.
#[derive(Debug, PartialEq, Eq)]
pub enum Config {
    Omit,
    Loaded(ConfigData, String),
}

impl Config {
    /// The path of the file the configuration was loaded from, if any.
    pub fn config_path(&self) -> (r: Option<&str>)
        ensures
            match self {
                Config::Omit => r is None,
                Config::Loaded(_, p) => r matches Some(s) && s@ == p@,
            },
    {
        match self {
            Config::Omit => None,
            Config::Loaded(_, path) => Some(path.as_str()),
        }
    }

    /// The loaded settings, if any.
    pub fn data(&self) -> (r: Option<&ConfigData>)
        ensures
            match self {
                Config::Omit => r is None,
                Config::Loaded(d, _) => r matches Some(rd) && rd == d,
            },
    {
        match self {
            Config::Omit => None,
            Config::Loaded(data, _) => Some(data),
        }
    }
}

/// The path of the configuration file under the given home directory.
pub fn config_file_path(home: &str) -> (r: String)
    ensures
        r@ == home@ + "/.gwt/config.toml"@,
{
    concat_str(home, "/.gwt/config.toml")
}

/// The default worktree root offered under the given home directory.
pub fn default_store_path(home: &str) -> (r: String)
    ensures
        r@ == home@ + "/.gwt_store"@,
{
    concat_str(home, "/.gwt_store")
}

} // verus!
