//! Where the settings file of the api shim lies in a title.

use vstd::prelude::*;
use crate::json::Json;
use crate::paths::{file_name, file_name_of, join_path, joined, parent, parent_of};
use crate::text::{chars_of, ends_with, has_prefix, has_suffix, starts_with, strings};

verus! {

/// The file name is that of the backup of a binary that the shim replaced.
pub open spec fn is_backup_name(name: Seq<char>) -> bool {
    has_prefix(name, "steam_api"@) && has_suffix(name, "_o.dll"@)
}

/// The place, from `from` on, of the first path whose file name is that of a backup.
pub open spec fn first_backup(files: Seq<Seq<char>>, from: int) -> Option<int>
    decreases files.len() - from,
{
    if from < 0 || from >= files.len() {
        None
    } else if is_backup_name(file_name(files[from])) {
        Some(from)
    } else {
        first_backup(files, from + 1)
    }
}

/// Whether the file name is that of a backup.
pub fn is_shim_backup(name: &str) -> (r: bool)
    ensures
        r == is_backup_name(name@),
{
    let n = chars_of(name);
    starts_with(&n, &chars_of("steam_api")) && ends_with(&n, &chars_of("_o.dll"))
}

/// The path of the shim's settings for the title in `game_path`, given the
/// paths found in the title's directory in the order of the walk: beside the
/// first backup, or directly in the title's directory where there is none.
pub fn find_smokeapi_config_path(game_path: &str, files: &Vec<String>) -> (path: String)
    ensures
        path@ == match first_backup(strings(files@), 0) {
            Some(i) => joined(parent(strings(files@)[i]), "SmokeAPI.config.json"@),
            None => joined(game_path@, "SmokeAPI.config.json"@),
        },
{
    let mut i: usize = 0;
    while i < files.len()
        invariant
            i <= files.len(),
            first_backup(strings(files@), 0) == first_backup(strings(files@), i as int),
        decreases files.len() - i,
    {
        assert(strings(files@)[i as int] == files[i as int]@);
        let name = file_name_of(files[i].as_str());
        if is_shim_backup(name.as_str()) {
            let dir = parent_of(files[i].as_str());
            return join_path(dir.as_str(), "SmokeAPI.config.json");
        }
        i += 1;
    }
    join_path(game_path, "SmokeAPI.config.json")
}

/// The settings of the api shim for one title.
#[derive(Debug)]
pub struct SmokeAPIConfig {
    pub schema: String,
    pub version: u32,
    pub logging: bool,
    pub log_steam_http: bool,
    pub default_app_status: String,
    pub override_app_status: Vec<(String, String)>,
    pub override_dlc_status: Vec<(String, String)>,
    pub auto_inject_inventory: bool,
    pub extra_inventory_items: Vec<u32>,
    pub extra_dlcs: Vec<(String, Json)>,
}

impl Default for SmokeAPIConfig {
    /// The settings of a title for which nothing was set: everything is
    /// unlocked, nothing is logged, and nothing is overridden or added.
    fn default() -> (c: SmokeAPIConfig)
        ensures
            c.schema@
                == "https://raw.githubusercontent.com/acidicoala/SmokeAPI/refs/tags/v4.0.0/res/SmokeAPI.schema.json"@,
            c.version == 4,
            !c.logging,
            !c.log_steam_http,
            c.default_app_status@ == "unlocked"@,
            c.override_app_status@.len() == 0,
            c.override_dlc_status@.len() == 0,
            c.auto_inject_inventory,
            c.extra_inventory_items@.len() == 0,
            c.extra_dlcs@.len() == 0,
    {
        SmokeAPIConfig {
            schema: "https://raw.githubusercontent.com/acidicoala/SmokeAPI/refs/tags/v4.0.0/res/SmokeAPI.schema.json".to_owned(),
            version: 4,
            logging: false,
            log_steam_http: false,
            default_app_status: "unlocked".to_owned(),
            override_app_status: Vec::new(),
            override_dlc_status: Vec::new(),
            auto_inject_inventory: true,
            extra_inventory_items: Vec::new(),
            extra_dlcs: Vec::new(),
        }
    }
}

} // verus!
