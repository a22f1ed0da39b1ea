//! Bringing the titles up to date once the cache holds newer versions: which
//! titles need it, and the count of how it went.

use vstd::prelude::*;
use crate::cache::CacheVersions;
use crate::installer::{copy_into_game, copy_steps, ErrorKind, InstallerError};
use crate::manifest::{update_creamlinux_version, GameManifest, ManifestView};
use crate::plan::{plan_view, required, required_step, Effect, FileOp, Step, StepView};
use crate::text::strings;

verus! {

/// How many titles were brought up to date, and how many could not be.
#[derive(Debug, Clone, Copy, PartialEq, Eq, Structural)]
pub struct GameUpdateStats {
    pub smokeapi_updated: u32,
    pub smokeapi_failed: u32,
    pub creamlinux_updated: u32,
    pub creamlinux_failed: u32,
}

impl Default for GameUpdateStats {
    fn default() -> (s: GameUpdateStats)
        ensures
            s == (GameUpdateStats {
                smokeapi_updated: 0,
                smokeapi_failed: 0,
                creamlinux_updated: 0,
                creamlinux_failed: 0,
            }),
    {
        GameUpdateStats {
            smokeapi_updated: 0,
            smokeapi_failed: 0,
            creamlinux_updated: 0,
            creamlinux_failed: 0,
        }
    }
}

impl GameUpdateStats {
    /// The number of updates that succeeded.
    pub fn total_updated(&self) -> (n: u32)
        requires
            self.smokeapi_updated + self.creamlinux_updated <= u32::MAX,
        ensures
            n == self.smokeapi_updated + self.creamlinux_updated,
    {
        self.smokeapi_updated + self.creamlinux_updated
    }

    /// The number of updates that failed.
    pub fn total_failed(&self) -> (n: u32)
        requires
            self.smokeapi_failed + self.creamlinux_failed <= u32::MAX,
        ensures
            n == self.smokeapi_failed + self.creamlinux_failed,
    {
        self.smokeapi_failed + self.creamlinux_failed
    }

    /// Whether an update failed.
    pub fn has_failures(&self) -> (r: bool)
        ensures
            r == (self.smokeapi_failed > 0 || self.creamlinux_failed > 0),
    {
        self.smokeapi_failed > 0 || self.creamlinux_failed > 0
    }
}

/// Which unlockers of a title are behind the cache.
#[derive(Debug, Clone, Copy, PartialEq, Eq, Structural)]
pub struct UpdateNeeds {
    pub smokeapi: bool,
    pub creamlinux: bool,
}

/// Says which unlockers of a title are behind the cache: those that the
/// title's record names at another version than the cached one.
pub fn update_needs(manifest: &GameManifest, cached: &CacheVersions) -> (n: UpdateNeeds)
    ensures
        n.smokeapi == (manifest@.smokeapi is Some && manifest@.smokeapi->0 != cached@.smokeapi),
        n.creamlinux == (manifest@.creamlinux is Some && manifest@.creamlinux->0
            != cached@.creamlinux),
{
    UpdateNeeds {
        smokeapi: manifest.has_smokeapi() && manifest.is_smokeapi_outdated(
            cached.smokeapi.latest.as_str(),
        ),
        creamlinux: manifest.has_creamlinux() && manifest.is_creamlinux_outdated(
            cached.creamlinux.latest.as_str(),
        ),
    }
}

/// The plan that brings the content unlocker of a title up to the cached
/// version: the cached files are copied over those of the title, and last of
/// all the record of the title takes up the version. The configuration of the
/// title is left as it is.
pub open spec fn refresh_plan(
    game_path: Seq<char>,
    files: Seq<Seq<char>>,
    manifest: ManifestView,
    version: Seq<char>,
) -> Seq<StepView> {
    copy_steps(game_path, files).push(
        required(
            Effect::StoreManifest {
                dir: game_path,
                manifest: ManifestView { smokeapi: manifest.smokeapi, creamlinux: Some(version) },
            },
        ),
    )
}

/// Lays out the update of the content unlocker of the title in `game_path`;
/// without cached files there is nothing to update from.
pub fn refresh_creamlinux(
    game_path: &str,
    cached_files: &Vec<String>,
    manifest: &GameManifest,
    cached_version: &str,
) -> (r: Result<Vec<Step>, InstallerError>)
    ensures
        match r {
            Ok(plan) => cached_files@.len() > 0 && plan_view(plan@) == refresh_plan(
                game_path@,
                strings(cached_files@),
                manifest@,
                cached_version@,
            ),
            Err(e) => cached_files@.len() == 0 && e.class() == ErrorKind::NotFound,
        },
{
    if cached_files.len() == 0 {
        return Err(InstallerError::NotFound("No CreamLinux files found in cache".to_owned()));
    }
    let mut plan = copy_into_game(game_path, cached_files);
    let updated = update_creamlinux_version(manifest.duplicate(), cached_version.to_owned());
    plan.push(required_step(FileOp::StoreManifest { dir: game_path.to_owned(), manifest: updated }));
    assert(plan_view(plan@) =~= refresh_plan(
        game_path@,
        strings(cached_files@),
        manifest@,
        cached_version@,
    ));
    Ok(plan)
}

/// How the update of one title went, for each unlocker: `None` where none was
/// due, else whether it succeeded.
#[derive(Debug, Clone, Copy, PartialEq, Eq, Structural)]
pub struct GameUpdateReport {
    pub smokeapi: Option<bool>,
    pub creamlinux: Option<bool>,
}

/// How many of the first `k` outcomes are `wanted`.
pub open spec fn count(outcomes: Seq<Option<bool>>, wanted: bool, k: int) -> nat
    decreases k,
{
    if k <= 0 {
        0
    } else if outcomes[k - 1] == Some(wanted) {
        count(outcomes, wanted, k - 1) + 1
    } else {
        count(outcomes, wanted, k - 1)
    }
}

/// The outcomes for the api shim.
pub open spec fn smokeapi_outcomes(reports: Seq<GameUpdateReport>) -> Seq<Option<bool>> {
    Seq::new(reports.len(), |i: int| reports[i].smokeapi)
}

/// The outcomes for the content unlocker.
pub open spec fn creamlinux_outcomes(reports: Seq<GameUpdateReport>) -> Seq<Option<bool>> {
    Seq::new(reports.len(), |i: int| reports[i].creamlinux)
}

proof fn count_is_bounded(outcomes: Seq<Option<bool>>, wanted: bool, k: int)
    requires
        0 <= k,
    ensures
        count(outcomes, wanted, k) <= k,
    decreases k,
{
    if k > 0 {
        count_is_bounded(outcomes, wanted, k - 1);
    }
}

/// Counts how the updates of the titles went.
pub fn update_outdated_games(reports: &Vec<GameUpdateReport>) -> (stats: GameUpdateStats)
    requires
        reports.len() <= u32::MAX,
    ensures
        stats.smokeapi_updated == count(smokeapi_outcomes(reports@), true, reports.len() as int),
        stats.smokeapi_failed == count(smokeapi_outcomes(reports@), false, reports.len() as int),
        stats.creamlinux_updated == count(
            creamlinux_outcomes(reports@),
            true,
            reports.len() as int,
        ),
        stats.creamlinux_failed == count(
            creamlinux_outcomes(reports@),
            false,
            reports.len() as int,
        ),
{
    let mut stats = GameUpdateStats::default();
    let mut k: usize = 0;
    while k < reports.len()
        invariant
            k <= reports.len() <= u32::MAX,
            stats.smokeapi_updated == count(smokeapi_outcomes(reports@), true, k as int),
            stats.smokeapi_failed == count(smokeapi_outcomes(reports@), false, k as int),
            stats.creamlinux_updated == count(creamlinux_outcomes(reports@), true, k as int),
            stats.creamlinux_failed == count(creamlinux_outcomes(reports@), false, k as int),
        decreases reports.len() - k,
    {
        proof {
            count_is_bounded(smokeapi_outcomes(reports@), true, k as int);
            count_is_bounded(smokeapi_outcomes(reports@), false, k as int);
            count_is_bounded(creamlinux_outcomes(reports@), true, k as int);
            count_is_bounded(creamlinux_outcomes(reports@), false, k as int);
        }
        match reports[k].smokeapi {
            Some(true) => {
                stats.smokeapi_updated = stats.smokeapi_updated + 1;
            },
            Some(false) => {
                stats.smokeapi_failed = stats.smokeapi_failed + 1;
            },
            None => {},
        }
        match reports[k].creamlinux {
            Some(true) => {
                stats.creamlinux_updated = stats.creamlinux_updated + 1;
            },
            Some(false) => {
                stats.creamlinux_failed = stats.creamlinux_failed + 1;
            },
            None => {},
        }
        k += 1;
    }
    stats
}

} // verus!
