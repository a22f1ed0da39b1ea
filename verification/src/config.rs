//! The user's settings.

use vstd::prelude::*;
use crate::paths::{join_path, joined};
use crate::stored::Stored;

verus! {

/// The user's settings.
#[derive(Debug, Clone, Copy, PartialEq, Eq, Structural)]
pub struct Config {
    /// Whether the disclaimer is shown when the program starts.
    pub show_disclaimer: bool,
}

impl Default for Config {
    fn default() -> (c: Config)
        ensures
            c.show_disclaimer,
    {
        Config { show_disclaimer: true }
    }
}

/// The directory of the settings, below the user's home directory.
pub fn get_config_dir(home: &str) -> (dir: String)
    ensures
        dir@ == joined(joined(home@, ".config"@), "creamlinux"@),
{
    join_path(join_path(home, ".config").as_str(), "creamlinux")
}

/// The file of the settings, below the user's home directory.
pub fn get_config_path(home: &str) -> (path: String)
    ensures
        path@ == joined(joined(joined(home@, ".config"@), "creamlinux"@), "config.json"@),
{
    join_path(get_config_dir(home).as_str(), "config.json")
}

/// The settings that hold, given what was found in their file, and whether
/// they have to be written: where there is no file the defaults hold and are
/// written; a file that cannot be read is an error.
pub fn load_config(found: Stored<Config>) -> (r: Result<(Config, bool), String>)
    ensures
        match found {
            Stored::Value(c) => r == Ok::<(Config, bool), String>((c, false)),
            Stored::Absent => r == Ok::<(Config, bool), String>(
                (Config { show_disclaimer: true }, true),
            ),
            Stored::Unreadable => r matches Err(e) && e@ == "Failed to parse config file"@,
        },
{
    match found {
        Stored::Value(c) => Ok((c, false)),
        Stored::Absent => Ok((Config::default(), true)),
        Stored::Unreadable => Err("Failed to parse config file".to_owned()),
    }
}

/// The settings after `updater` was applied to them.
pub fn update_config<F: FnOnce(Config) -> Config>(config: Config, updater: F) -> (updated: Config)
    requires
        updater.requires((config,)),
    ensures
        updater.ensures((config,), updated),
{
    updater(config)
}

} // verus!
