//! The cache of unlocker bundles: which version of each kind is the current
//! one, where the bundles lie, and how the pointer moves when a new version
//! has been fetched.

use vstd::prelude::*;
use crate::installer::{ErrorKind, InstallerError, InstallerType};
use crate::paths::{extension, extension_of, file_name, file_name_of, join_path, joined};
use crate::plan::{
    attempted, attempted_step, plan_view, required, required_step, run, Disk, Effect, FileOp, Step,
    StepView,
};
use crate::stored::Stored;
use crate::text::{str_eq, strings};

verus! {

/// The current version of one unlocker kind; empty while none is cached.
#[derive(Debug, Clone)]
pub struct VersionInfo {
    pub latest: String,
}

/// The version pointer of the cache: the current version of each kind.
#[derive(Debug, Clone)]
pub struct CacheVersions {
    pub smokeapi: VersionInfo,
    pub creamlinux: VersionInfo,
}

/// A version pointer as plain values.
pub struct VersionsView {
    pub smokeapi: Seq<char>,
    pub creamlinux: Seq<char>,
}

impl View for CacheVersions {
    type V = VersionsView;

    open spec fn view(&self) -> VersionsView {
        VersionsView { smokeapi: self.smokeapi.latest@, creamlinux: self.creamlinux.latest@ }
    }
}

impl VersionsView {
    /// The pointer of a cache that holds nothing.
    pub open spec fn empty() -> VersionsView {
        VersionsView { smokeapi: Seq::empty(), creamlinux: Seq::empty() }
    }

    /// The current version of `kind`.
    pub open spec fn of(self, kind: InstallerType) -> Seq<char> {
        match kind {
            InstallerType::Smoke => self.smokeapi,
            InstallerType::Cream => self.creamlinux,
        }
    }

    /// This pointer with `version` as the current version of `kind`.
    pub open spec fn with(self, kind: InstallerType, version: Seq<char>) -> VersionsView {
        match kind {
            InstallerType::Smoke => VersionsView { smokeapi: version, ..self },
            InstallerType::Cream => VersionsView { creamlinux: version, ..self },
        }
    }
}

impl Default for CacheVersions {
    fn default() -> (v: CacheVersions)
        ensures
            v@ == VersionsView::empty(),
    {
        CacheVersions {
            smokeapi: VersionInfo { latest: String::new() },
            creamlinux: VersionInfo { latest: String::new() },
        }
    }
}

impl CacheVersions {
    /// A copy of this pointer.
    pub fn duplicate(&self) -> (v: CacheVersions)
        ensures
            v@ == self@,
    {
        CacheVersions {
            smokeapi: VersionInfo { latest: self.smokeapi.latest.clone() },
            creamlinux: VersionInfo { latest: self.creamlinux.latest.clone() },
        }
    }

    /// The current version of `kind`.
    pub fn latest(&self, kind: InstallerType) -> (v: &String)
        ensures
            v@ == self@.of(kind),
    {
        match kind {
            InstallerType::Smoke => &self.smokeapi.latest,
            InstallerType::Cream => &self.creamlinux.latest,
        }
    }
}

/// The pointer that holds, given what was found where it is kept: the pointer
/// itself, and the empty pointer where there is none or it cannot be read.
pub open spec fn versions_read(found: Stored<CacheVersions>) -> VersionsView {
    match found {
        Stored::Value(v) => v@,
        _ => VersionsView::empty(),
    }
}

/// The pointer that holds, given what was found where it is kept.
pub fn read_versions(found: Stored<CacheVersions>) -> (v: CacheVersions)
    ensures
        v@ == versions_read(found),
{
    match found {
        Stored::Value(v) => v,
        _ => CacheVersions::default(),
    }
}

/// Two reads of the same stored pointer give the same versions: what a read
/// returns depends on nothing but what is stored.
pub proof fn reads_agree(found: Stored<CacheVersions>, first: CacheVersions, second: CacheVersions)
    requires
        first@ == versions_read(found),
        second@ == versions_read(found),
    ensures
        first@ == second@,
{
}

/// Whether a version of each kind is cached.
pub fn is_cache_initialized(versions: &CacheVersions) -> (r: bool)
    ensures
        r == (versions@.smokeapi.len() > 0 && versions@.creamlinux.len() > 0),
{
    !versions.smokeapi.latest.as_str().is_empty()
        && !versions.creamlinux.latest.as_str().is_empty()
}

/// The name of the directory of `kind` in the cache.
pub open spec fn kind_dir_name(kind: InstallerType) -> Seq<char> {
    match kind {
        InstallerType::Smoke => "smokeapi"@,
        InstallerType::Cream => "creamlinux"@,
    }
}

/// The directory in which the bundle of `kind` at `version` lies.
pub open spec fn version_dir(cache_dir: Seq<char>, kind: InstallerType, version: Seq<char>) -> Seq<
    char,
> {
    joined(joined(cache_dir, kind_dir_name(kind)), version)
}

/// The directory of the api shim in the cache.
pub fn get_smokeapi_dir(cache_dir: &str) -> (dir: String)
    ensures
        dir@ == joined(cache_dir@, "smokeapi"@),
{
    join_path(cache_dir, "smokeapi")
}

/// The directory of the content unlocker in the cache.
pub fn get_creamlinux_dir(cache_dir: &str) -> (dir: String)
    ensures
        dir@ == joined(cache_dir@, "creamlinux"@),
{
    join_path(cache_dir, "creamlinux")
}

/// The directory of the api shim at `version`.
pub fn get_smokeapi_version_dir(cache_dir: &str, version: &str) -> (dir: String)
    ensures
        dir@ == version_dir(cache_dir@, InstallerType::Smoke, version@),
{
    join_path(get_smokeapi_dir(cache_dir).as_str(), version)
}

/// The directory of the content unlocker at `version`.
pub fn get_creamlinux_version_dir(cache_dir: &str, version: &str) -> (dir: String)
    ensures
        dir@ == version_dir(cache_dir@, InstallerType::Cream, version@),
{
    join_path(get_creamlinux_dir(cache_dir).as_str(), version)
}

/// The directory of `kind` at `version`.
pub fn get_version_dir(cache_dir: &str, kind: InstallerType, version: &str) -> (dir: String)
    ensures
        dir@ == version_dir(cache_dir@, kind, version@),
{
    match kind {
        InstallerType::Smoke => get_smokeapi_version_dir(cache_dir, version),
        InstallerType::Cream => get_creamlinux_version_dir(cache_dir, version),
    }
}

/// The directory of the cache, given the cache directory that the desktop
/// assigns to this program: the directory `creamlinux` beside it.
pub fn get_cache_dir(cache_home: &str) -> (dir: String)
    ensures
        dir@ == joined(crate::paths::parent(cache_home@), "creamlinux"@),
{
    join_path(crate::paths::parent_of(cache_home).as_str(), "creamlinux")
}

/// The file that holds the version pointer of the cache in `cache_dir`.
pub fn versions_file(cache_dir: &str) -> (path: String)
    ensures
        path@ == joined(cache_dir@, "versions.json"@),
{
    join_path(cache_dir, "versions.json")
}

/// The path of the shim of the current version; an error while none is cached.
pub fn get_smokeapi_dll_path(cache_dir: &str, versions: &CacheVersions) -> (r: Result<String, String>)
    ensures
        match r {
            Ok(p) => versions@.smokeapi.len() > 0 && p@ == joined(
                version_dir(cache_dir@, InstallerType::Smoke, versions@.smokeapi),
                "SmokeAPI.dll"@,
            ),
            Err(e) => versions@.smokeapi.len() == 0 && e@ == "SmokeAPI is not cached"@,
        },
{
    if versions.smokeapi.latest.as_str().is_empty() {
        return Err("SmokeAPI is not cached".to_owned());
    }
    let dir = get_smokeapi_version_dir(cache_dir, versions.smokeapi.latest.as_str());
    Ok(join_path(dir.as_str(), "SmokeAPI.dll"))
}

/// The directory of the files of the current content unlocker; an error while
/// none is cached.
pub fn get_creamlinux_files_dir(cache_dir: &str, versions: &CacheVersions) -> (r: Result<
    String,
    String,
>)
    ensures
        match r {
            Ok(p) => versions@.creamlinux.len() > 0 && p@ == version_dir(
                cache_dir@,
                InstallerType::Cream,
                versions@.creamlinux,
            ),
            Err(e) => versions@.creamlinux.len() == 0 && e@ == "CreamLinux is not cached"@,
        },
{
    if versions.creamlinux.latest.as_str().is_empty() {
        return Err("CreamLinux is not cached".to_owned());
    }
    Ok(get_creamlinux_version_dir(cache_dir, versions.creamlinux.latest.as_str()))
}

/// The paths among the first `k` of `entries` whose extension is `dll`.
pub open spec fn dlls_among(entries: Seq<Seq<char>>, k: int) -> Seq<Seq<char>>
    decreases k,
{
    if k <= 0 {
        Seq::empty()
    } else if extension(file_name(entries[k - 1])) == Some("dll"@) {
        dlls_among(entries, k - 1).push(entries[k - 1])
    } else {
        dlls_among(entries, k - 1)
    }
}

/// The shims of the current version, given what lies in its directory: the
/// paths with the extension `dll`, and none while no version is cached.
pub fn list_smokeapi_dlls(versions: &CacheVersions, entries: &Vec<String>) -> (out: Vec<String>)
    ensures
        strings(out@) == if versions@.smokeapi.len() == 0 {
            Seq::empty()
        } else {
            dlls_among(strings(entries@), entries@.len() as int)
        },
{
    let mut out: Vec<String> = Vec::new();
    assert(strings(out@) =~= Seq::<Seq<char>>::empty());
    if versions.smokeapi.latest.as_str().is_empty() {
        return out;
    }
    let mut k: usize = 0;
    while k < entries.len()
        invariant
            k <= entries.len(),
            strings(out@) == dlls_among(strings(entries@), k as int),
        decreases entries.len() - k,
    {
        let name = file_name_of(entries[k].as_str());
        assert(strings(entries@)[k as int] == entries[k as int]@);
        match extension_of(name.as_str()) {
            Some(ext) => {
                if str_eq(ext.as_str(), "dll") {
                    let ghost before = strings(out@);
                    out.push(entries[k].clone());
                    assert(strings(out@) =~= before.push(entries[k as int]@));
                }
            },
            None => {},
        }
        k += 1;
    }
    out
}

/// The files of the current content unlocker, given the files that lie in its
/// directory: all of them, and none while no version is cached.
pub fn list_creamlinux_files(versions: &CacheVersions, files: &Vec<String>) -> (out: Vec<String>)
    ensures
        strings(out@) == if versions@.creamlinux.len() == 0 {
            Seq::empty()
        } else {
            strings(files@)
        },
{
    if versions.creamlinux.latest.as_str().is_empty() {
        let out: Vec<String> = Vec::new();
        assert(strings(out@) =~= Seq::<Seq<char>>::empty());
        out
    } else {
        crate::text::copy_texts(files)
    }
}

/// The steps that make `version` the current version of `kind`: the pointer is
/// written first, and must be; then the directory of the version that was
/// current before is deleted, if there was one and it is another, and that may
/// fail.
pub open spec fn advance_plan(
    cache_dir: Seq<char>,
    versions: VersionsView,
    kind: InstallerType,
    version: Seq<char>,
) -> Seq<StepView> {
    let store = required(
        Effect::StoreVersions { dir: cache_dir, versions: versions.with(kind, version) },
    );
    if versions.of(kind).len() > 0 && versions.of(kind) != version {
        seq![
            store,
            attempted(Effect::RemoveTree { path: version_dir(cache_dir, kind, versions.of(kind)) }),
        ]
    } else {
        seq![store]
    }
}

/// Makes `new_version` the current version of `kind`: gives the new pointer and
/// the steps that write it and clean up behind it.
pub fn update_version(
    cache_dir: &str,
    versions: &CacheVersions,
    kind: InstallerType,
    new_version: &str,
) -> (r: (CacheVersions, Vec<Step>))
    ensures
        r.0@ == versions@.with(kind, new_version@),
        plan_view(r.1@) == advance_plan(cache_dir@, versions@, kind, new_version@),
{
    let old = versions.latest(kind).clone();
    let updated = match kind {
        InstallerType::Smoke => CacheVersions {
            smokeapi: VersionInfo { latest: new_version.to_owned() },
            creamlinux: VersionInfo { latest: versions.creamlinux.latest.clone() },
        },
        InstallerType::Cream => CacheVersions {
            smokeapi: VersionInfo { latest: versions.smokeapi.latest.clone() },
            creamlinux: VersionInfo { latest: new_version.to_owned() },
        },
    };
    let mut plan: Vec<Step> = Vec::new();
    plan.push(
        required_step(
            FileOp::StoreVersions { dir: cache_dir.to_owned(), versions: updated.duplicate() },
        ),
    );
    if !old.as_str().is_empty() && !str_eq(old.as_str(), new_version) {
        let stale = get_version_dir(cache_dir, kind, old.as_str());
        plan.push(attempted_step(FileOp::RemoveTree { path: stale }));
    }
    assert(plan_view(plan@) =~= advance_plan(cache_dir@, versions@, kind, new_version@));
    (updated, plan)
}

/// Makes `new_version` the current version of the api shim.
pub fn update_smokeapi_version(cache_dir: &str, versions: &CacheVersions, new_version: &str) -> (r: (
    CacheVersions,
    Vec<Step>,
))
    ensures
        r.0@ == versions@.with(InstallerType::Smoke, new_version@),
        plan_view(r.1@) == advance_plan(cache_dir@, versions@, InstallerType::Smoke, new_version@),
{
    update_version(cache_dir, versions, InstallerType::Smoke, new_version)
}

/// Makes `new_version` the current version of the content unlocker.
pub fn update_creamlinux_version(cache_dir: &str, versions: &CacheVersions, new_version: &str) -> (r:
    (CacheVersions, Vec<Step>))
    ensures
        r.0@ == versions@.with(InstallerType::Cream, new_version@),
        plan_view(r.1@) == advance_plan(cache_dir@, versions@, InstallerType::Cream, new_version@),
{
    update_version(cache_dir, versions, InstallerType::Cream, new_version)
}

/// The pointer moves before anything is deleted: if writing it fails, the disk
/// is as it was; once it is written, it reads as the new pointer whether or not
/// the old directory could be deleted; no file outside the old version's
/// directory is ever touched; and where both steps succeed, nothing is left
/// below the directory of the version that was current before.
pub proof fn pointer_moves_first(
    cache_dir: Seq<char>,
    versions: VersionsView,
    kind: InstallerType,
    version: Seq<char>,
    disk: Disk,
    ok: spec_fn(int) -> bool,
)
    ensures
        ({
            let end = run(advance_plan(cache_dir, versions, kind, version), 0, disk, ok);
            &&& !ok(0) ==> end.disk == disk && !end.completed
            &&& ok(0) ==> end.completed && end.disk.pointers == disk.pointers.insert(
                cache_dir,
                versions.with(kind, version),
            )
            &&& forall|p: Seq<char>|
                !crate::plan::is_under(p, version_dir(cache_dir, kind, versions.of(kind)))
                    ==> end.disk.files.contains_key(p) == disk.files.contains_key(p) && (
                disk.files.contains_key(p) ==> end.disk.files[p] == disk.files[p])
            &&& ok(0) && ok(1) && versions.of(kind).len() > 0 && versions.of(kind) != version
                ==> forall|p: Seq<char>|
                crate::plan::is_under(p, version_dir(cache_dir, kind, versions.of(kind)))
                    ==> !end.disk.files.contains_key(p)
        }),
{
    reveal_with_fuel(run, 3);
}

/// What to do about the cached version of one kind.
#[derive(Debug, Clone)]
pub enum UpdateDecision {
    /// The cached version is the latest.
    UpToDate,
    /// Another version is the latest: fetch it.
    Fetch { version: String },
    /// The latest version is not known; the cache stays as it is.
    Unknown,
}

/// Decides about the cached version `current`, given the answer to the
/// question for the latest: fetch the latest if it is another version, and do
/// nothing if it is the same or the answer failed.
pub fn check_for_update(current: &str, latest: &Result<String, InstallerError>) -> (d:
    UpdateDecision)
    ensures
        match *latest {
            Ok(v) => if v@ == current@ {
                d is UpToDate
            } else {
                d matches UpdateDecision::Fetch { version } && version@ == v@
            },
            Err(_) => d is Unknown,
        },
{
    match latest {
        Ok(v) => {
            if str_eq(v.as_str(), current) {
                UpdateDecision::UpToDate
            } else {
                UpdateDecision::Fetch { version: v.clone() }
            }
        },
        Err(_) => UpdateDecision::Unknown,
    }
}

/// The kinds of which no version is cached, the api shim first.
pub open spec fn uncached(versions: VersionsView) -> Seq<InstallerType> {
    (if versions.smokeapi.len() == 0 {
        seq![InstallerType::Smoke]
    } else {
        Seq::empty()
    }) + (if versions.creamlinux.len() == 0 {
        seq![InstallerType::Cream]
    } else {
        Seq::empty()
    })
}

/// The kinds for which a first bundle has to be fetched.
pub fn initialize_cache(versions: &CacheVersions) -> (kinds: Vec<InstallerType>)
    ensures
        kinds@ == uncached(versions@),
{
    let mut kinds: Vec<InstallerType> = Vec::new();
    if versions.smokeapi.latest.as_str().is_empty() {
        kinds.push(InstallerType::Smoke);
    }
    if versions.creamlinux.latest.as_str().is_empty() {
        kinds.push(InstallerType::Cream);
    }
    assert(kinds@ =~= uncached(versions@));
    kinds
}

/// What the cache is like after an attempt to fetch a version.
#[derive(Debug, Clone)]
pub enum Conclusion {
    /// The version was fetched: the pointer to write, and the steps to take.
    Advanced { versions: CacheVersions, plan: Vec<Step>, version: String },
    /// The fetch failed and an older version is cached: it stays current.
    Retained { cause: InstallerError },
    /// The fetch failed and nothing is cached.
    Failed { cause: InstallerError },
}

impl Conclusion {
    /// The steps to take on disk.
    pub open spec fn steps(self) -> Seq<StepView> {
        match self {
            Conclusion::Advanced { versions, plan, version } => plan_view(plan@),
            _ => Seq::empty(),
        }
    }

    /// The pointer that holds afterwards, where `before` held before.
    pub open spec fn pointer(self, before: VersionsView) -> VersionsView {
        match self {
            Conclusion::Advanced { versions, plan, version } => versions@,
            _ => before,
        }
    }
}

/// Concludes the attempt to fetch a version of `kind` into a directory of its
/// own. After a fetch that succeeded the pointer moves to the version fetched.
/// After one that failed nothing is to be done on disk: the pointer and the
/// directory of the version that is current stay as they are, and the failure
/// counts only if nothing is cached.
pub fn conclude_update(
    cache_dir: &str,
    versions: &CacheVersions,
    kind: InstallerType,
    fetched: Result<String, InstallerError>,
) -> (c: Conclusion)
    ensures
        match fetched {
            Ok(v) => c matches Conclusion::Advanced { versions: updated, plan, version }
                && version@ == v@ && updated@ == versions@.with(kind, v@) && plan_view(plan@)
                == advance_plan(cache_dir@, versions@, kind, v@),
            Err(e) => if versions@.of(kind).len() > 0 {
                c matches Conclusion::Retained { cause } && cause == e
            } else {
                c matches Conclusion::Failed { cause } && cause == e
            },
        },
        fetched is Err ==> c.steps() == Seq::<StepView>::empty() && c.pointer(versions@)
            == versions@,
{
    match fetched {
        Ok(v) => {
            let r = update_version(cache_dir, versions, kind, v.as_str());
            Conclusion::Advanced { versions: r.0, plan: r.1, version: v }
        },
        Err(e) => {
            if !versions.latest(kind).as_str().is_empty() {
                Conclusion::Retained { cause: e }
            } else {
                Conclusion::Failed { cause: e }
            }
        },
    }
}

/// A conclusion without steps leaves every disk as it is, whatever fails: so
/// does the conclusion of a fetch that failed, and with it the pointer and the
/// directory of the version that was current.
pub proof fn failed_update_changes_nothing(c: Conclusion, disk: Disk, ok: spec_fn(int) -> bool)
    requires
        !(c is Advanced),
    ensures
        run(c.steps(), 0, disk, ok).disk == disk,
{
}

/// What a check for updates brought.
#[derive(Debug, Clone)]
pub struct UpdateResult {
    pub smokeapi_updated: bool,
    pub creamlinux_updated: bool,
    pub new_smokeapi_version: Option<String>,
    pub new_creamlinux_version: Option<String>,
}

/// An update result as plain values.
pub struct UpdateView {
    pub smokeapi: Option<Seq<char>>,
    pub creamlinux: Option<Seq<char>>,
    pub smokeapi_updated: bool,
    pub creamlinux_updated: bool,
}

impl View for UpdateResult {
    type V = UpdateView;

    open spec fn view(&self) -> UpdateView {
        UpdateView {
            smokeapi: crate::manifest::opt_text(self.new_smokeapi_version),
            creamlinux: crate::manifest::opt_text(self.new_creamlinux_version),
            smokeapi_updated: self.smokeapi_updated,
            creamlinux_updated: self.creamlinux_updated,
        }
    }
}

impl Default for UpdateResult {
    fn default() -> (r: UpdateResult)
        ensures
            r@ == (UpdateView {
                smokeapi: None,
                creamlinux: None,
                smokeapi_updated: false,
                creamlinux_updated: false,
            }),
    {
        UpdateResult {
            smokeapi_updated: false,
            creamlinux_updated: false,
            new_smokeapi_version: None,
            new_creamlinux_version: None,
        }
    }
}

impl UpdateResult {
    /// Whether a new version of either kind was fetched.
    pub fn any_updated(&self) -> (r: bool)
        ensures
            r == (self.smokeapi_updated || self.creamlinux_updated),
    {
        self.smokeapi_updated || self.creamlinux_updated
    }
}

/// Takes the conclusion for one kind into the result of a check for updates:
/// a version that was fetched is noted for its kind, and a failure with nothing
/// cached ends the check.
pub fn check_and_update_cache(result: UpdateResult, kind: InstallerType, conclusion: &Conclusion) -> (r:
    Result<UpdateResult, InstallerError>)
    ensures
        match *conclusion {
            Conclusion::Advanced { versions, plan, version } => r matches Ok(u) && match kind {
                InstallerType::Smoke => u@ == (UpdateView {
                    smokeapi: Some(version@),
                    smokeapi_updated: true,
                    ..result@
                }),
                InstallerType::Cream => u@ == (UpdateView {
                    creamlinux: Some(version@),
                    creamlinux_updated: true,
                    ..result@
                }),
            },
            Conclusion::Retained { cause } => r matches Ok(u) && u@ == result@,
            Conclusion::Failed { cause } => r matches Err(e) && e.class()
                == ErrorKind::TransferFailure,
        },
{
    match conclusion {
        Conclusion::Advanced { versions, plan, version } => match kind {
            InstallerType::Smoke => Ok(
                UpdateResult {
                    smokeapi_updated: true,
                    creamlinux_updated: result.creamlinux_updated,
                    new_smokeapi_version: Some(version.clone()),
                    new_creamlinux_version: result.new_creamlinux_version,
                },
            ),
            InstallerType::Cream => Ok(
                UpdateResult {
                    smokeapi_updated: result.smokeapi_updated,
                    creamlinux_updated: true,
                    new_smokeapi_version: result.new_smokeapi_version,
                    new_creamlinux_version: Some(version.clone()),
                },
            ),
        },
        Conclusion::Retained { cause } => Ok(result),
        Conclusion::Failed { cause } => Err(InstallerError::TransferFailure(cause.message())),
    }
}

} // verus!
