//! File operations as values. The library decides which operations an action
//! consists of and what follows the success or failure of each; whoever holds
//! the disk carries them out one by one. A model of the disk says what a plan
//! does when it is carried out.

use vstd::prelude::*;
use crate::cache::{CacheVersions, VersionsView};
use crate::manifest::{GameManifest, ManifestView};
use crate::text::has_prefix;

verus! {

/// One operation on the disk.
#[derive(Debug, Clone)]
pub enum FileOp {
    /// Copy the file `from` over `to`.
    Copy { from: String, to: String },
    /// Delete the file `path`.
    Remove { path: String },
    /// Move the file `from` to `to`.
    Rename { from: String, to: String },
    /// Write `contents` as the whole file `path`.
    Write { path: String, contents: String },
    /// Give everybody the right to execute `path`.
    MakeExecutable { path: String },
    /// Write `manifest` as the record of the title in `dir`.
    StoreManifest { dir: String, manifest: GameManifest },
    /// Delete the record of the title in `dir`.
    RemoveManifest { dir: String },
    /// Write `versions` as the version pointer of the cache in `dir`.
    StoreVersions { dir: String, versions: CacheVersions },
    /// Delete the directory `path` with everything below it.
    RemoveTree { path: String },
}

/// An operation as plain values.
pub enum Effect {
    Copy { from: Seq<char>, to: Seq<char> },
    Remove { path: Seq<char> },
    Rename { from: Seq<char>, to: Seq<char> },
    Write { path: Seq<char>, contents: Seq<char> },
    MakeExecutable { path: Seq<char> },
    StoreManifest { dir: Seq<char>, manifest: ManifestView },
    RemoveManifest { dir: Seq<char> },
    StoreVersions { dir: Seq<char>, versions: VersionsView },
    RemoveTree { path: Seq<char> },
}

impl View for FileOp {
    type V = Effect;

    open spec fn view(&self) -> Effect {
        match *self {
            FileOp::Copy { from, to } => Effect::Copy { from: from@, to: to@ },
            FileOp::Remove { path } => Effect::Remove { path: path@ },
            FileOp::Rename { from, to } => Effect::Rename { from: from@, to: to@ },
            FileOp::Write { path, contents } => Effect::Write { path: path@, contents: contents@ },
            FileOp::MakeExecutable { path } => Effect::MakeExecutable { path: path@ },
            FileOp::StoreManifest { dir, manifest } => Effect::StoreManifest {
                dir: dir@,
                manifest: manifest@,
            },
            FileOp::RemoveManifest { dir } => Effect::RemoveManifest { dir: dir@ },
            FileOp::StoreVersions { dir, versions } => Effect::StoreVersions {
                dir: dir@,
                versions: versions@,
            },
            FileOp::RemoveTree { path } => Effect::RemoveTree { path: path@ },
        }
    }
}

/// What follows one step of a plan.
#[derive(Debug, Clone, Copy, PartialEq, Eq, Structural)]
pub enum After {
    /// Go on with the step behind this one; the plan is complete if there is none.
    Next,
    /// The plan is complete.
    Done,
    /// The plan is given up.
    Fail,
}

/// One step of a plan: an operation, and what follows its success and its failure.
#[derive(Debug, Clone)]
pub struct Step {
    pub op: FileOp,
    pub on_success: After,
    pub on_failure: After,
}

/// A step as plain values.
pub struct StepView {
    pub op: Effect,
    pub on_success: After,
    pub on_failure: After,
}

impl View for Step {
    type V = StepView;

    open spec fn view(&self) -> StepView {
        StepView { op: self.op@, on_success: self.on_success, on_failure: self.on_failure }
    }
}

/// The steps of a plan as plain values.
pub open spec fn plan_view(plan: Seq<Step>) -> Seq<StepView> {
    Seq::new(plan.len(), |i: int| plan[i]@)
}

/// A step whose failure gives the plan up.
pub open spec fn required(op: Effect) -> StepView {
    StepView { op, on_success: After::Next, on_failure: After::Fail }
}

/// A step whose failure is passed over.
pub open spec fn attempted(op: Effect) -> StepView {
    StepView { op, on_success: After::Next, on_failure: After::Next }
}

/// What a file holds.
pub enum Content {
    Bytes(Seq<u8>),
    Text(Seq<char>),
}

/// The part of a disk that plans touch: the files by path, the title records
/// by the directory of their title, and the version pointers by the directory
/// of their cache.
pub struct Disk {
    pub files: Map<Seq<char>, Content>,
    pub manifests: Map<Seq<char>, ManifestView>,
    pub pointers: Map<Seq<char>, VersionsView>,
}

/// The path lies in the directory `dir` or below it.
pub open spec fn is_under(path: Seq<char>, dir: Seq<char>) -> bool {
    has_prefix(path, dir + seq!['/'])
}

/// The disk after `op` was carried out on `disk` with success.
pub open spec fn apply(op: Effect, disk: Disk) -> Disk {
    match op {
        Effect::Copy { from, to } => if disk.files.contains_key(from) {
            Disk { files: disk.files.insert(to, disk.files[from]), ..disk }
        } else {
            disk
        },
        Effect::Remove { path } => Disk { files: disk.files.remove(path), ..disk },
        Effect::Rename { from, to } => if disk.files.contains_key(from) {
            Disk { files: disk.files.remove(from).insert(to, disk.files[from]), ..disk }
        } else {
            disk
        },
        Effect::Write { path, contents } => Disk {
            files: disk.files.insert(path, Content::Text(contents)),
            ..disk
        },
        Effect::MakeExecutable { path } => disk,
        Effect::StoreManifest { dir, manifest } => Disk {
            manifests: disk.manifests.insert(dir, manifest),
            ..disk
        },
        Effect::RemoveManifest { dir } => Disk { manifests: disk.manifests.remove(dir), ..disk },
        Effect::StoreVersions { dir, versions } => Disk {
            pointers: disk.pointers.insert(dir, versions),
            ..disk
        },
        Effect::RemoveTree { path } => Disk {
            files: Map::new(
                |p: Seq<char>| disk.files.contains_key(p) && !is_under(p, path),
                |p: Seq<char>| disk.files[p],
            ),
            ..disk
        },
    }
}

/// How a plan ended, and the disk it left.
pub struct Outcome {
    pub disk: Disk,
    pub completed: bool,
}

/// The outcome of carrying out `plan` from step `pc` on `disk`, where `ok` says
/// of each step whether its operation succeeds. A failed operation leaves the
/// disk as it was.
pub open spec fn run(plan: Seq<StepView>, pc: int, disk: Disk, ok: spec_fn(int) -> bool) -> Outcome
    decreases plan.len() - pc,
{
    if pc < 0 || pc >= plan.len() {
        Outcome { disk, completed: true }
    } else {
        let step = plan[pc];
        let after = if ok(pc) {
            step.on_success
        } else {
            step.on_failure
        };
        let next = if ok(pc) {
            apply(step.op, disk)
        } else {
            disk
        };
        match after {
            After::Next => run(plan, pc + 1, next, ok),
            After::Done => Outcome { disk: next, completed: true },
            After::Fail => Outcome { disk: next, completed: false },
        }
    }
}

/// Every operation succeeds.
pub open spec fn all_succeed() -> spec_fn(int) -> bool {
    |i: int| true
}

/// The disk that `plan` leaves when every operation succeeds.
pub open spec fn carried_out(plan: Seq<StepView>, disk: Disk) -> Disk {
    run(plan, 0, disk, all_succeed()).disk
}

/// Where a plan stands: at the step with the given number, or at its end.
#[derive(Debug, Clone, Copy, PartialEq, Eq, Structural)]
pub enum Progress {
    At(usize),
    Completed,
    GivenUp,
}

/// Where `plan` stands after the step `pc` ended with success (`ok`) or failure.
/// A step number beyond the plan counts as its end.
pub open spec fn progress_after(plan: Seq<StepView>, pc: int, ok: bool) -> Progress {
    if pc < 0 || pc >= plan.len() {
        Progress::Completed
    } else {
        let after = if ok {
            plan[pc].on_success
        } else {
            plan[pc].on_failure
        };
        match after {
            After::Next => if pc + 1 < plan.len() {
                Progress::At((pc + 1) as usize)
            } else {
                Progress::Completed
            },
            After::Done => Progress::Completed,
            After::Fail => Progress::GivenUp,
        }
    }
}

/// Where to begin with `plan`.
pub fn begin(plan: &Vec<Step>) -> (p: Progress)
    ensures
        p == if plan.len() > 0 {
            Progress::At(0)
        } else {
            Progress::Completed
        },
{
    if plan.len() > 0 {
        Progress::At(0)
    } else {
        Progress::Completed
    }
}

/// Where `plan` stands after its step `pc` ended with success (`ok`) or failure.
pub fn advance(plan: &Vec<Step>, pc: usize, ok: bool) -> (p: Progress)
    ensures
        p == progress_after(plan_view(plan@), pc as int, ok),
{
    if pc >= plan.len() {
        return Progress::Completed;
    }
    let after = if ok {
        plan[pc].on_success
    } else {
        plan[pc].on_failure
    };
    match after {
        After::Next => if pc + 1 < plan.len() {
            Progress::At(pc + 1)
        } else {
            Progress::Completed
        },
        After::Done => Progress::Completed,
        After::Fail => Progress::GivenUp,
    }
}

/// A step whose failure gives the plan up.
pub fn required_step(op: FileOp) -> (s: Step)
    ensures
        s@ == required(op@),
{
    Step { op, on_success: After::Next, on_failure: After::Fail }
}

/// A step whose failure is passed over.
pub fn attempted_step(op: FileOp) -> (s: Step)
    ensures
        s@ == attempted(op@),
{
    Step { op, on_success: After::Next, on_failure: After::Next }
}

/// Carrying out `plan` from `pc` goes the way `progress_after` says, one step at
/// a time.
pub proof fn run_follows_progress(plan: Seq<StepView>, pc: int, disk: Disk, ok: spec_fn(int) -> bool)
    requires
        0 <= pc < plan.len() <= usize::MAX,
    ensures
        run(plan, pc, disk, ok) == match progress_after(plan, pc, ok(pc)) {
            Progress::At(n) => run(
                plan,
                n as int,
                if ok(pc) {
                    apply(plan[pc].op, disk)
                } else {
                    disk
                },
                ok,
            ),
            Progress::Completed => Outcome {
                disk: if ok(pc) {
                    apply(plan[pc].op, disk)
                } else {
                    disk
                },
                completed: true,
            },
            Progress::GivenUp => Outcome {
                disk: if ok(pc) {
                    apply(plan[pc].op, disk)
                } else {
                    disk
                },
                completed: false,
            },
        },
{
    reveal_with_fuel(run, 2);
}

} // verus!
