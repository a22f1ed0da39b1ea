//! The api shim on the binaries of a title: where each binary and its backup
//! lie, the plans that put the shim in a binary's place and bring the original
//! back, and the bookkeeping of the work binary by binary.

use vstd::prelude::*;
use crate::installer::{manifest_effect, manifest_op, ErrorKind, InstallerError};
use crate::manifest::{remove_smokeapi_version, update_smokeapi_version, GameManifest, ManifestView};
use crate::paths::{
    backup_name, backup_name_of, file_name, file_name_of, join_path, joined, sibling, sibling_of,
};
use crate::plan::{
    attempted, attempted_step, plan_view, required, required_step, After, Effect, FileOp, Step,
    StepView,
};
use crate::text::{chars_of, contains, has_infix, lower, lowered, strings};

verus! {

/// One binary that the api shim replaces: where it lies, where its original is
/// kept, and whether it is the 64-bit one.
#[derive(Debug, Clone)]
pub struct ShimTarget {
    pub api_file: String,
    pub original: String,
    pub backup: Option<String>,
    pub wide: bool,
}

/// A shim target as plain values.
pub struct ShimTargetView {
    pub api_file: Seq<char>,
    pub original: Seq<char>,
    pub backup: Option<Seq<char>>,
    pub wide: bool,
}

impl View for ShimTarget {
    type V = ShimTargetView;

    open spec fn view(&self) -> ShimTargetView {
        ShimTargetView {
            api_file: self.api_file@,
            original: self.original@,
            backup: match self.backup {
                Some(b) => Some(b@),
                None => None,
            },
            wide: self.wide,
        }
    }
}

/// The shim targets of `v` as plain values.
pub open spec fn target_views(v: Seq<ShimTarget>) -> Seq<ShimTargetView> {
    Seq::new(v.len(), |i: int| v[i]@)
}

/// The target for the binary `api_file`, a path relative to the title's
/// directory `game_path`. The backup lies beside the binary, under its backup
/// name; a binary whose name does not end in `.dll` has none. The binary is the
/// 64-bit one when its name holds `64`.
pub open spec fn target_of(game_path: Seq<char>, api_file: Seq<char>) -> ShimTargetView {
    let original = joined(game_path, api_file);
    ShimTargetView {
        api_file,
        original,
        backup: match backup_name(file_name(original)) {
            Some(b) => Some(sibling(original, b)),
            None => None,
        },
        wide: has_infix(file_name(original), "64"@),
    }
}

/// The target for the binary `api_file` of the title in `game_path`.
pub fn shim_target(game_path: &str, api_file: &str) -> (t: ShimTarget)
    ensures
        t@ == target_of(game_path@, api_file@),
{
    let original = join_path(game_path, api_file);
    let name = file_name_of(original.as_str());
    let backup = match backup_name_of(name.as_str()) {
        Some(b) => Some(sibling_of(original.as_str(), b.as_str())),
        None => None,
    };
    let name_chars = chars_of(name.as_str());
    let marker = chars_of("64");
    let wide = contains(&name_chars, &marker);
    ShimTarget { api_file: api_file.to_owned(), original, backup, wide }
}

/// The targets for the binaries `api_files` of the title in `game_path`, in order.
pub open spec fn targets_of(game_path: Seq<char>, api_files: Seq<Seq<char>>) -> Seq<ShimTargetView> {
    Seq::new(api_files.len(), |i: int| target_of(game_path, api_files[i]))
}

/// The targets for the binaries `api_files` of the title in `game_path`, in order.
pub fn shim_targets(game_path: &str, api_files: &Vec<String>) -> (out: Vec<ShimTarget>)
    ensures
        target_views(out@) == targets_of(game_path@, strings(api_files@)),
{
    let mut out: Vec<ShimTarget> = Vec::new();
    let mut i: usize = 0;
    while i < api_files.len()
        invariant
            i <= api_files.len(),
            target_views(out@) == targets_of(game_path@, strings(api_files@)).take(i as int),
        decreases api_files.len() - i,
    {
        let t = shim_target(game_path, api_files[i].as_str());
        let ghost before = target_views(out@);
        out.push(t);
        assert(target_views(out@) =~= before.push(t@));
        i += 1;
        assert(targets_of(game_path@, strings(api_files@)).take(i as int) =~= before.push(t@));
    }
    assert(targets_of(game_path@, strings(api_files@)).take(api_files.len() as int)
        == targets_of(game_path@, strings(api_files@)));
    out
}

/// Whether the cached file named `name` is the shim for the given width: its
/// name, in lower case, holds `smoke` and `64.dll` or `32.dll`.
pub open spec fn is_shim_artifact(name: Seq<char>, wide: bool) -> bool {
    has_infix(lower(name), "smoke"@) && has_infix(
        lower(name),
        if wide {
            "64.dll"@
        } else {
            "32.dll"@
        },
    )
}

/// The position, from `from` on, of the first cached file that is the shim for
/// the given width.
pub open spec fn first_artifact(cached: Seq<Seq<char>>, wide: bool, from: int) -> Option<int>
    decreases cached.len() - from,
{
    if from < 0 || from >= cached.len() {
        None
    } else if is_shim_artifact(file_name(cached[from]), wide) {
        Some(from)
    } else {
        first_artifact(cached, wide, from + 1)
    }
}

/// The position of the first file of `cached` that is the shim for the given width.
pub fn select_artifact(cached: &Vec<String>, wide: bool) -> (found: Option<usize>)
    ensures
        match found {
            Some(i) => first_artifact(strings(cached@), wide, 0) == Some(i as int) && i
                < cached.len(),
            None => first_artifact(strings(cached@), wide, 0) is None,
        },
{
    let smoke = chars_of("smoke");
    let width = if wide {
        chars_of("64.dll")
    } else {
        chars_of("32.dll")
    };
    let mut i: usize = 0;
    while i < cached.len()
        invariant
            i <= cached.len(),
            smoke@ == "smoke"@,
            width@ == if wide {
                "64.dll"@
            } else {
                "32.dll"@
            },
            first_artifact(strings(cached@), wide, 0) == first_artifact(
                strings(cached@),
                wide,
                i as int,
            ),
        decreases cached.len() - i,
    {
        let name = file_name_of(cached[i].as_str());
        let low = lowered(&chars_of(name.as_str()));
        if contains(&low, &smoke) && contains(&low, &width) {
            return Some(i);
        }
        i += 1;
    }
    None
}

/// The step that keeps the original of a binary: the binary is copied to its
/// backup, unless a backup is there already or there is no binary.
pub open spec fn shim_capture_plan(
    original: Seq<char>,
    backup: Seq<char>,
    backup_exists: bool,
    original_exists: bool,
) -> Seq<StepView> {
    if !backup_exists && original_exists {
        seq![required(Effect::Copy { from: original, to: backup })]
    } else {
        Seq::empty()
    }
}

/// The steps that put the shim `artifact` in the place of a binary. The
/// original is copied to its backup first, unless a backup is there already or
/// there is no original; then the shim is copied over the binary. Each failure
/// gives the plan up.
pub open spec fn shim_install_plan(
    original: Seq<char>,
    backup: Seq<char>,
    backup_exists: bool,
    original_exists: bool,
    artifact: Seq<char>,
) -> Seq<StepView> {
    shim_capture_plan(original, backup, backup_exists, original_exists) + seq![
        required(Effect::Copy { from: artifact, to: original }),
    ]
}

/// The steps that bring the original of a binary back. Without a backup there
/// are none: the binary is left as it is. With one, the shim is deleted, which
/// may fail, and the backup is moved into its place; if it cannot be moved it is
/// copied there and then deleted.
pub open spec fn shim_uninstall_plan(original: Seq<char>, backup: Seq<char>, backup_exists: bool) -> Seq<
    StepView,
> {
    if backup_exists {
        seq![
            attempted(Effect::Remove { path: original }),
            StepView {
                op: Effect::Rename { from: backup, to: original },
                on_success: After::Done,
                on_failure: After::Next,
            },
            required(Effect::Copy { from: backup, to: original }),
            required(Effect::Remove { path: backup }),
        ]
    } else {
        Seq::empty()
    }
}

/// The work on one binary of an installation: the steps to carry out, and what
/// is wrong with the binary or the cache, to be reported once the steps are done.
#[derive(Debug, Clone)]
pub struct ShimInstall {
    pub steps: Vec<Step>,
    pub failure: Option<InstallerError>,
}

/// The class of a failure, if there is one.
pub open spec fn failure_class(failure: Option<InstallerError>) -> Option<ErrorKind> {
    match failure {
        Some(e) => Some(e.class()),
        None => None,
    }
}

/// The steps for the binary `t`, given whether its backup and the binary itself
/// exist and which files the cache holds. A binary without a backup name gets no
/// step. The original is kept first; then the shim of the binary's width is
/// looked for in the cache and copied over the binary. Where the cache holds no
/// such shim, the original is kept all the same and nothing is overwritten.
pub open spec fn planned_steps(
    t: ShimTargetView,
    backup_exists: bool,
    original_exists: bool,
    cached: Seq<Seq<char>>,
) -> Seq<StepView> {
    match t.backup {
        None => Seq::empty(),
        Some(b) => match first_artifact(cached, t.wide, 0) {
            Some(i) => shim_install_plan(t.original, b, backup_exists, original_exists, cached[i]),
            None => shim_capture_plan(t.original, b, backup_exists, original_exists),
        },
    }
}

/// What is wrong with the binary `t` or the cache: the binary has no backup
/// name, or the cache holds no shim of its width.
pub open spec fn planned_failure(t: ShimTargetView, cached: Seq<Seq<char>>) -> Option<ErrorKind> {
    if t.backup is None {
        Some(ErrorKind::FormatFailure)
    } else if first_artifact(cached, t.wide, 0) is None {
        Some(ErrorKind::NotFound)
    } else {
        None
    }
}

/// Lays out the work that puts the shim in the place of the binary `target`,
/// given whether its backup and the binary itself exist and which files the
/// cache holds.
pub fn plan_shim_install(
    target: &ShimTarget,
    backup_exists: bool,
    original_exists: bool,
    cached: &Vec<String>,
) -> (r: ShimInstall)
    ensures
        plan_view(r.steps@) == planned_steps(
            target@,
            backup_exists,
            original_exists,
            strings(cached@),
        ),
        failure_class(r.failure) == planned_failure(target@, strings(cached@)),
{
    let backup = match &target.backup {
        Some(b) => b.clone(),
        None => {
            let steps: Vec<Step> = Vec::new();
            assert(plan_view(steps@) =~= Seq::<StepView>::empty());
            return ShimInstall {
                steps,
                failure: Some(InstallerError::FormatFailure("Unknown Steam API DLL".to_owned())),
            };
        },
    };
    let mut steps: Vec<Step> = Vec::new();
    if !backup_exists && original_exists {
        steps.push(required_step(FileOp::Copy { from: target.original.clone(), to: backup }));
    }
    assert(plan_view(steps@) =~= shim_capture_plan(
        target@.original,
        target@.backup->0,
        backup_exists,
        original_exists,
    ));
    match select_artifact(cached, target.wide) {
        Some(i) => {
            let ghost captured = plan_view(steps@);
            steps.push(
                required_step(
                    FileOp::Copy { from: cached[i].clone(), to: target.original.clone() },
                ),
            );
            assert(plan_view(steps@) =~= captured + seq![
                required(Effect::Copy { from: cached[i as int]@, to: target@.original }),
            ]);
            ShimInstall { steps, failure: None }
        },
        None => {
            let msg = if target.wide {
                "No matching 64-bit SmokeAPI DLL found in cache"
            } else {
                "No matching 32-bit SmokeAPI DLL found in cache"
            };
            ShimInstall { steps, failure: Some(InstallerError::NotFound(msg.to_owned())) }
        },
    }
}

/// How the work on one binary ended, given the error of the step at which its
/// steps were given up, if they were: that error, or else what was wrong with
/// the binary or the cache.
pub fn unit_outcome(carried_out: Option<InstallerError>, failure: Option<InstallerError>) -> (r:
    Option<InstallerError>)
    ensures
        r == match carried_out {
            Some(e) => Some(e),
            None => failure,
        },
{
    match carried_out {
        Some(e) => Some(e),
        None => failure,
    }
}

/// The plan that brings the original of the binary `target` back, given whether
/// its backup exists. It is empty for a binary without a backup.
pub fn plan_shim_uninstall(target: &ShimTarget, backup_exists: bool) -> (plan: Vec<Step>)
    ensures
        plan_view(plan@) == match target@.backup {
            Some(b) => shim_uninstall_plan(target@.original, b, backup_exists),
            None => Seq::empty(),
        },
{
    let mut plan: Vec<Step> = Vec::new();
    match &target.backup {
        Some(b) => {
            if backup_exists {
                plan.push(attempted_step(FileOp::Remove { path: target.original.clone() }));
                plan.push(
                    Step {
                        op: FileOp::Rename { from: b.clone(), to: target.original.clone() },
                        on_success: After::Done,
                        on_failure: After::Next,
                    },
                );
                plan.push(
                    required_step(FileOp::Copy { from: b.clone(), to: target.original.clone() }),
                );
                plan.push(required_step(FileOp::Remove { path: b.clone() }));
            }
            assert(plan_view(plan@) =~= shim_uninstall_plan(target@.original, b@, backup_exists));
        },
        None => {
            assert(plan_view(plan@) =~= Seq::empty());
        },
    }
    plan
}

/// How the work on one binary ended.
#[derive(Debug, Clone)]
pub struct UnitReport {
    pub api_file: String,
    pub error: Option<InstallerError>,
}

/// A report as plain values: the binary, and the class of what went wrong.
pub struct ReportView {
    pub api_file: Seq<char>,
    pub failure: Option<ErrorKind>,
}

impl View for UnitReport {
    type V = ReportView;

    open spec fn view(&self) -> ReportView {
        ReportView {
            api_file: self.api_file@,
            failure: match self.error {
                Some(e) => Some(e.class()),
                None => None,
            },
        }
    }
}

/// The reports of `v` as plain values.
pub open spec fn report_views(v: Seq<UnitReport>) -> Seq<ReportView> {
    Seq::new(v.len(), |i: int| v[i]@)
}

/// The work on the binaries of a title, one after the other: each binary is
/// worked on once, whether or not the work on another failed, and each gets a
/// report of its own.
#[derive(Debug)]
pub struct ShimWork {
    targets: Vec<ShimTarget>,
    reports: Vec<UnitReport>,
}

/// The work on the binaries as plain values.
pub struct WorkView {
    pub targets: Seq<ShimTargetView>,
    pub reports: Seq<ReportView>,
}

impl View for ShimWork {
    type V = WorkView;

    closed spec fn view(&self) -> WorkView {
        WorkView { targets: target_views(self.targets@), reports: report_views(self.reports@) }
    }
}

impl ShimWork {
    /// There is a report for each binary that was worked on, and no other.
    #[verifier::type_invariant]
    spec fn well_formed(self) -> bool {
        &&& self.reports@.len() <= self.targets@.len()
        &&& forall|i: int|
            0 <= i < self.reports@.len() ==> (#[trigger] self.reports@[i]).api_file@
                == self.targets@[i].api_file@
    }

    /// Work on `targets`, none of which was worked on yet.
    pub fn new(targets: Vec<ShimTarget>) -> (w: ShimWork)
        ensures
            w@.targets == target_views(targets@),
            w@.reports == Seq::<ReportView>::empty(),
    {
        let w = ShimWork { targets, reports: Vec::new() };
        assert(report_views(w.reports@) =~= Seq::<ReportView>::empty());
        w
    }

    /// The binary to work on next, if one is left.
    pub fn current(&self) -> (t: Option<&ShimTarget>)
        ensures
            self@.reports.len() <= self@.targets.len(),
            match t {
                Some(target) => self@.reports.len() < self@.targets.len() && target@
                    == self@.targets[self@.reports.len() as int],
                None => self@.reports.len() == self@.targets.len(),
            },
    {
        proof {
            use_type_invariant(self);
        }
        if self.reports.len() < self.targets.len() {
            Some(&self.targets[self.reports.len()])
        } else {
            None
        }
    }

    /// Whether every binary was worked on.
    pub fn is_finished(&self) -> (r: bool)
        ensures
            r == (self@.reports.len() == self@.targets.len()),
    {
        proof {
            use_type_invariant(self);
        }
        self.reports.len() >= self.targets.len()
    }

    /// The reports made so far, one for each binary that was worked on, in the
    /// order of the binaries.
    pub fn into_reports(self) -> (reports: Vec<UnitReport>)
        ensures
            report_views(reports@) == self@.reports,
            reports@.len() <= self@.targets.len(),
            forall|i: int|
                0 <= i < reports@.len() ==> (#[trigger] reports@[i]).api_file@
                    == self@.targets[i].api_file,
    {
        proof {
            use_type_invariant(&self);
        }
        self.reports
    }

    /// Takes note of how the work on the current binary ended, and moves on to the
    /// next. Once every binary was worked on, nothing changes.
    pub fn record(self, error: Option<InstallerError>) -> (after: ShimWork)
        ensures
            after@.targets == self@.targets,
            self@.reports.len() >= self@.targets.len() ==> after@ == self@,
            self@.reports.len() < self@.targets.len() ==> after@.reports == self@.reports.push(
                ReportView {
                    api_file: self@.targets[self@.reports.len() as int].api_file,
                    failure: match error {
                        Some(e) => Some(e.class()),
                        None => None,
                    },
                },
            ),
    {
        proof {
            use_type_invariant(&self);
        }
        if self.reports.len() >= self.targets.len() {
            return self;
        }
        let ShimWork { targets, reports } = self;
        let mut reports = reports;
        let ghost before = report_views(reports@);
        let report = UnitReport { api_file: targets[reports.len()].api_file.clone(), error };
        reports.push(report);
        assert(report_views(reports@) =~= before.push(report@));
        ShimWork { targets, reports }
    }
}

/// No unit failed.
pub open spec fn all_applied(reports: Seq<UnitReport>) -> bool {
    forall|i: int| 0 <= i < reports.len() ==> (#[trigger] reports[i]).error is None
}

/// The number of the first unit that failed.
pub fn first_failure(reports: &Vec<UnitReport>) -> (found: Option<usize>)
    ensures
        match found {
            Some(i) => i < reports.len() && reports[i as int].error is Some && forall|j: int|
                0 <= j < i ==> (#[trigger] reports[j]).error is None,
            None => all_applied(reports@),
        },
{
    let mut i: usize = 0;
    while i < reports.len()
        invariant
            i <= reports.len(),
            forall|j: int| 0 <= j < i ==> (#[trigger] reports[j]).error is None,
        decreases reports.len() - i,
    {
        if reports[i].error.is_some() {
            return Some(i);
        }
        i += 1;
    }
    None
}

/// What follows the work on the binaries of an installation: the record of the
/// title takes up the cached version if every binary was patched; it stays as it
/// is, and the action fails, if one was not.
pub fn conclude_smokeapi_install(
    game_path: &str,
    reports: &Vec<UnitReport>,
    manifest: &GameManifest,
    cached_version: &str,
) -> (r: Result<Vec<Step>, InstallerError>)
    ensures
        match r {
            Ok(plan) => all_applied(reports@) && plan_view(plan@) == seq![
                required(
                    Effect::StoreManifest {
                        dir: game_path@,
                        manifest: ManifestView {
                            smokeapi: Some(cached_version@),
                            creamlinux: manifest@.creamlinux,
                        },
                    },
                ),
            ],
            Err(e) => !all_applied(reports@) && e.class() == ErrorKind::IoFailure,
        },
{
    match first_failure(reports) {
        Some(i) => {
            Err(InstallerError::IoFailure("Failed to install SmokeAPI".to_owned()))
        },
        None => {
            let updated = update_smokeapi_version(manifest.duplicate(), cached_version.to_owned());
            let mut plan: Vec<Step> = Vec::new();
            plan.push(
                required_step(FileOp::StoreManifest { dir: game_path.to_owned(), manifest: updated }),
            );
            assert(plan_view(plan@) =~= seq![
                required(
                    Effect::StoreManifest {
                        dir: game_path@,
                        manifest: ManifestView {
                            smokeapi: Some(cached_version@),
                            creamlinux: manifest@.creamlinux,
                        },
                    },
                ),
            ]);
            Ok(plan)
        },
    }
}

/// What follows the work on the binaries of a removal: the record of the title
/// drops the api shim.
pub fn conclude_smokeapi_uninstall(game_path: &str, manifest: &GameManifest) -> (plan: Vec<Step>)
    ensures
        plan_view(plan@) == seq![
            required(
                manifest_effect(
                    game_path@,
                    ManifestView { smokeapi: None, creamlinux: manifest@.creamlinux },
                ),
            ),
        ],
{
    let left = remove_smokeapi_version(manifest.duplicate());
    let mut plan: Vec<Step> = Vec::new();
    plan.push(required_step(manifest_op(game_path, left)));
    assert(plan_view(plan@) =~= seq![
        required(
            manifest_effect(
                game_path@,
                ManifestView { smokeapi: None, creamlinux: manifest@.creamlinux },
            ),
        ),
    ]);
    plan
}

} // verus!
