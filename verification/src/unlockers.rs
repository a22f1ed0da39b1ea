//! The two unlockers behind one set of capabilities: where each comes from,
//! what is unpacked of its bundle, and the work that applies it to a title or
//! takes it away, whatever the title's platform.

use vstd::prelude::*;
use crate::download::{
    bundle_address, download_to_cache, download_url, release_address, release_url, unpacked,
    Unpacked,
};
use crate::installer::{
    copy_into_game, copy_steps, cream_removals, remove_from_game, ActionPlan, ErrorKind,
    InstallerError, InstallerType,
};
use crate::json::{release_tag, Json};
use crate::plan::plan_view;
use crate::progress::kind_name;
use crate::shim::{shim_targets, target_views, targets_of};
use crate::text::strings;

verus! {

/// The content unlocker, for native titles.
#[derive(Debug, Clone, Copy, PartialEq, Eq, Structural)]
pub struct CreamLinux;

/// The api shim, for titles that run through a compatibility layer.
#[derive(Debug, Clone, Copy, PartialEq, Eq, Structural)]
pub struct SmokeAPI;

/// The version that a release description names, as the answer to the question
/// for the latest version.
pub open spec fn latest_in(release: Json) -> Option<Seq<char>> {
    match release.member("tag_name"@) {
        Some(tag) => tag.text(),
        None => None,
    }
}

/// What the two unlockers have in common.
pub trait Unlocker {
    /// The kind of this unlocker.
    spec fn kind_of() -> InstallerType;

    /// The kind of this unlocker.
    fn kind() -> (k: InstallerType)
        ensures
            k == Self::kind_of(),
    ;

    /// The name of this unlocker.
    fn name() -> (n: String)
        ensures
            n@ == kind_name(Self::kind_of()),
    ;

    /// The address that describes the latest release.
    fn latest_release_url() -> (url: String)
        ensures
            url@ == release_address(Self::kind_of()),
    ;

    /// The latest version, as the description of the latest release names it.
    fn get_latest_version(release: &Json) -> (r: Result<String, InstallerError>)
        ensures
            match r {
                Ok(v) => latest_in(*release) == Some(v@),
                Err(e) => latest_in(*release) is None && e.class() == ErrorKind::FormatFailure,
            },
    ;

    /// The address of the bundle at `version`.
    fn bundle_url(version: &str) -> (url: String)
        ensures
            url@ == bundle_address(Self::kind_of(), version@),
    ;

    /// What becomes of the entry `entry_name` of a bundle in the cache.
    fn download_to_cache(entry_name: &str) -> (r: Option<Unpacked>)
        ensures
            match r {
                Some(u) => unpacked(Self::kind_of(), entry_name@) == Some(u@),
                None => unpacked(Self::kind_of(), entry_name@) is None,
            },
    ;

    /// The work that applies this unlocker to the title in `game_path`. For
    /// the content unlocker `context` holds the cached files, which are copied
    /// into the title; without any there is nothing to apply. For the api shim
    /// it holds the title's binaries, each of which is a unit of work.
    fn install_to_game(game_path: &str, context: &Vec<String>) -> (r: Result<
        ActionPlan,
        InstallerError,
    >)
        ensures
            match Self::kind_of() {
                InstallerType::Cream => if context@.len() == 0 {
                    r matches Err(e) && e.class() == ErrorKind::NotFound
                } else {
                    r matches Ok(ActionPlan::Steps(plan)) && plan_view(plan@) == copy_steps(
                        game_path@,
                        strings(context@),
                    )
                },
                InstallerType::Smoke => r matches Ok(ActionPlan::Units(targets)) && target_views(
                    targets@,
                ) == targets_of(game_path@, strings(context@)),
            },
    ;

    /// The work that takes this unlocker away from the title in `game_path`.
    /// For the content unlocker its four files are deleted; for the api shim
    /// `context` holds the title's binaries, each of which is a unit of work.
    fn uninstall_from_game(game_path: &str, context: &Vec<String>) -> (r: ActionPlan)
        ensures
            match Self::kind_of() {
                InstallerType::Cream => r matches ActionPlan::Steps(plan) && plan_view(plan@)
                    == cream_removals(game_path@),
                InstallerType::Smoke => r matches ActionPlan::Units(targets) && target_views(
                    targets@,
                ) == targets_of(game_path@, strings(context@)),
            },
    ;
}

/// The latest version that the description of a release names.
pub fn latest_version(release: &Json) -> (r: Result<String, InstallerError>)
    ensures
        match r {
            Ok(v) => latest_in(*release) == Some(v@),
            Err(e) => latest_in(*release) is None && e.class() == ErrorKind::FormatFailure,
        },
{
    match release_tag(release) {
        Some(v) => Ok(v),
        None => Err(
            InstallerError::FormatFailure("Failed to extract version from release info".to_owned()),
        ),
    }
}

impl Unlocker for CreamLinux {
    open spec fn kind_of() -> InstallerType {
        InstallerType::Cream
    }

    fn kind() -> (k: InstallerType) {
        InstallerType::Cream
    }

    fn name() -> (n: String) {
        "CreamLinux".to_owned()
    }

    fn latest_release_url() -> (url: String) {
        release_url(InstallerType::Cream)
    }

    fn get_latest_version(release: &Json) -> (r: Result<String, InstallerError>) {
        latest_version(release)
    }

    fn bundle_url(version: &str) -> (url: String) {
        download_url(InstallerType::Cream, version)
    }

    fn download_to_cache(entry_name: &str) -> (r: Option<Unpacked>) {
        download_to_cache(InstallerType::Cream, entry_name)
    }

    fn install_to_game(game_path: &str, context: &Vec<String>) -> (r: Result<
        ActionPlan,
        InstallerError,
    >) {
        if context.len() == 0 {
            Err(InstallerError::NotFound("No CreamLinux files found in cache".to_owned()))
        } else {
            Ok(ActionPlan::Steps(copy_into_game(game_path, context)))
        }
    }

    fn uninstall_from_game(game_path: &str, context: &Vec<String>) -> (r: ActionPlan) {
        ActionPlan::Steps(remove_from_game(game_path))
    }
}

impl Unlocker for SmokeAPI {
    open spec fn kind_of() -> InstallerType {
        InstallerType::Smoke
    }

    fn kind() -> (k: InstallerType) {
        InstallerType::Smoke
    }

    fn name() -> (n: String) {
        "SmokeAPI".to_owned()
    }

    fn latest_release_url() -> (url: String) {
        release_url(InstallerType::Smoke)
    }

    fn get_latest_version(release: &Json) -> (r: Result<String, InstallerError>) {
        latest_version(release)
    }

    fn bundle_url(version: &str) -> (url: String) {
        download_url(InstallerType::Smoke, version)
    }

    fn download_to_cache(entry_name: &str) -> (r: Option<Unpacked>) {
        download_to_cache(InstallerType::Smoke, entry_name)
    }

    fn install_to_game(game_path: &str, context: &Vec<String>) -> (r: Result<
        ActionPlan,
        InstallerError,
    >) {
        Ok(ActionPlan::Units(shim_targets(game_path, context)))
    }

    fn uninstall_from_game(game_path: &str, context: &Vec<String>) -> (r: ActionPlan) {
        ActionPlan::Units(shim_targets(game_path, context))
    }
}

} // verus!
