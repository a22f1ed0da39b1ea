//! The order in which the plans of the content unlocker touch the record of a
//! title: after everything else, and not at all once a required step failed.

use vstd::prelude::*;
use crate::dlc::DlcView;
use crate::installer::{copy_steps, cream_install_plan, cream_uninstall_plan, manifest_effect};
use crate::manifest::{state_for, ManifestView, StateView};
use crate::plan::{apply, carried_out, required, run, After, Disk, Effect, StepView};

verus! {

/// The operation leaves the records of all titles alone.
pub open spec fn keeps_records(op: Effect) -> bool {
    !(op is StoreManifest) && !(op is RemoveManifest)
}

/// Every step of `plan` gives the plan up when it fails and goes on when it
/// succeeds, and only the last one touches a record.
pub open spec fn strict_with_record_last(plan: Seq<StepView>) -> bool {
    &&& forall|i: int|
        0 <= i < plan.len() ==> (#[trigger] plan[i]).on_success == After::Next
            && plan[i].on_failure == After::Fail
    &&& forall|i: int| 0 <= i < plan.len() - 1 ==> keeps_records((#[trigger] plan[i]).op)
}

/// All steps from `pc` on succeed.
pub open spec fn succeed_from(plan: Seq<StepView>, pc: int, ok: spec_fn(int) -> bool) -> bool {
    forall|i: int| pc <= i < plan.len() ==> #[trigger] ok(i)
}

proof fn copy_steps_are_strict(game_path: Seq<char>, files: Seq<Seq<char>>)
    ensures
        forall|i: int|
            0 <= i < copy_steps(game_path, files).len() ==> (#[trigger] copy_steps(
                game_path,
                files,
            )[i]).on_success == After::Next && copy_steps(game_path, files)[i].on_failure
                == After::Fail && keeps_records(copy_steps(game_path, files)[i].op),
    decreases files.len(),
{
    if files.len() > 0 {
        copy_steps_are_strict(game_path, files.drop_last());
    }
}

/// A plan of strict steps that touches a record in its last step only: if a step
/// fails, the plan is given up and every record is as it was; if none fails,
/// the plan completes and the records are as the last step leaves them.
pub proof fn record_follows_everything(
    plan: Seq<StepView>,
    pc: int,
    disk: Disk,
    ok: spec_fn(int) -> bool,
)
    requires
        strict_with_record_last(plan),
        0 <= pc < plan.len(),
    ensures
        succeed_from(plan, pc, ok) ==> run(plan, pc, disk, ok).completed && run(
            plan,
            pc,
            disk,
            ok,
        ).disk.manifests == apply(plan.last().op, disk).manifests,
        !succeed_from(plan, pc, ok) ==> !run(plan, pc, disk, ok).completed && run(
            plan,
            pc,
            disk,
            ok,
        ).disk.manifests == disk.manifests,
    decreases plan.len() - pc,
{
    reveal_with_fuel(run, 2);
    if ok(pc) {
        let next = apply(plan[pc].op, disk);
        if pc + 1 < plan.len() {
            assert(keeps_records(plan[pc].op));
            assert(next.manifests == disk.manifests);
            record_follows_everything(plan, pc + 1, next, ok);
            assert(apply(plan.last().op, next).manifests == apply(plan.last().op, disk).manifests);
            if succeed_from(plan, pc, ok) {
                assert(succeed_from(plan, pc + 1, ok));
            } else {
                assert(!succeed_from(plan, pc + 1, ok));
            }
        } else {
            assert(succeed_from(plan, pc, ok));
        }
    } else {
        assert(!succeed_from(plan, pc, ok));
    }
}

/// Installing the content unlocker records the version last: if any copy or
/// the writing of the configuration fails, the installation is given up and the
/// record of the title is as it was; if every step succeeds, the record holds
/// the cached version.
pub proof fn install_records_version_last(
    game_path: Seq<char>,
    app_id: Seq<char>,
    files: Seq<Seq<char>>,
    dlcs: Seq<DlcView>,
    manifest: ManifestView,
    version: Seq<char>,
    disk: Disk,
    ok: spec_fn(int) -> bool,
)
    ensures
        ({
            let plan = cream_install_plan(game_path, app_id, files, dlcs, manifest, version);
            let end = run(plan, 0, disk, ok);
            if succeed_from(plan, 0, ok) {
                end.completed && end.disk.manifests == disk.manifests.insert(
                    game_path,
                    ManifestView { smokeapi: manifest.smokeapi, creamlinux: Some(version) },
                )
            } else {
                !end.completed && end.disk.manifests == disk.manifests
            }
        }),
{
    let plan = cream_install_plan(game_path, app_id, files, dlcs, manifest, version);
    copy_steps_are_strict(game_path, files);
    let copies = copy_steps(game_path, files);
    assert forall|i: int| 0 <= i < plan.len() implies (#[trigger] plan[i]).on_success
        == After::Next && plan[i].on_failure == After::Fail by {
        if i < copies.len() {
            assert(plan[i] == copies[i]);
        }
    }
    assert forall|i: int| 0 <= i < plan.len() - 1 implies keeps_records((#[trigger] plan[i]).op) by {
        if i < copies.len() {
            assert(plan[i] == copies[i]);
        }
    }
    record_follows_everything(plan, 0, disk, ok);
}

/// Removing the content unlocker touches the record of the title after all four
/// deletions were tried, whether or not they succeeded, and it always gets to
/// the record.
pub proof fn uninstall_clears_record_last(
    game_path: Seq<char>,
    manifest: ManifestView,
    disk: Disk,
    ok: spec_fn(int) -> bool,
)
    ensures
        ({
            let plan = cream_uninstall_plan(game_path, manifest);
            let left = ManifestView { smokeapi: manifest.smokeapi, creamlinux: None };
            let end = run(plan, 0, disk, ok);
            &&& plan.len() == 5
            &&& forall|i: int| 0 <= i < 4 ==> keeps_records((#[trigger] plan[i]).op)
            &&& end.completed == ok(4)
            &&& end.disk.manifests == if ok(4) {
                apply(manifest_effect(game_path, left), disk).manifests
            } else {
                disk.manifests
            }
        }),
{
    reveal_with_fuel(run, 6);
}

/// A title has a record on disk exactly while something is applied to it:
/// bringing the record to a manifest writes it if the manifest names a
/// version, and deletes it if the manifest names none.
pub proof fn record_exists_while_applied(dir: Seq<char>, manifest: ManifestView, disk: Disk)
    ensures
        apply(manifest_effect(dir, manifest), disk).manifests.contains_key(dir)
            == !manifest.is_empty(),
        !manifest.is_empty() ==> apply(manifest_effect(dir, manifest), disk).manifests[dir]
            == manifest,
        apply(manifest_effect(dir, manifest), disk).files == disk.files,
{
}

/// The record of the title in `dir`, as the disk holds it: the empty record
/// where there is none.
pub open spec fn recorded(disk: Disk, dir: Seq<char>) -> ManifestView {
    if disk.manifests.contains_key(dir) {
        disk.manifests[dir]
    } else {
        ManifestView::empty()
    }
}

/// An installation of the content unlocker that succeeds leaves the unlocker
/// installed at the cached version, and the state of the api shim as it was
/// recorded.
pub proof fn install_makes_installed(
    game_path: Seq<char>,
    app_id: Seq<char>,
    files: Seq<Seq<char>>,
    dlcs: Seq<DlcView>,
    manifest: ManifestView,
    version: Seq<char>,
    disk: Disk,
)
    ensures
        ({
            let end = carried_out(
                cream_install_plan(game_path, app_id, files, dlcs, manifest, version),
                disk,
            );
            &&& state_for(recorded(end, game_path).creamlinux) == StateView::Installed(version)
            &&& recorded(end, game_path).smokeapi == manifest.smokeapi
        }),
{
    install_records_version_last(
        game_path,
        app_id,
        files,
        dlcs,
        manifest,
        version,
        disk,
        crate::plan::all_succeed(),
    );
    let plan = cream_install_plan(game_path, app_id, files, dlcs, manifest, version);
    assert(succeed_from(plan, 0, crate::plan::all_succeed()));
}

/// A removal of the content unlocker that gets to the record leaves the
/// unlocker not installed, and the state of the api shim as it was recorded.
pub proof fn uninstall_makes_not_installed(
    game_path: Seq<char>,
    manifest: ManifestView,
    disk: Disk,
    ok: spec_fn(int) -> bool,
)
    requires
        ok(4),
    ensures
        ({
            let end = run(cream_uninstall_plan(game_path, manifest), 0, disk, ok).disk;
            &&& state_for(recorded(end, game_path).creamlinux) == StateView::NotInstalled
            &&& recorded(end, game_path).smokeapi == manifest.smokeapi
        }),
{
    uninstall_clears_record_last(game_path, manifest, disk, ok);
    let left = ManifestView { smokeapi: manifest.smokeapi, creamlinux: None };
    record_exists_while_applied(game_path, left, disk);
}

/// The last step of an api shim installation that succeeds leaves the shim
/// installed at the cached version; the last step of its removal leaves it not
/// installed. The state of the content unlocker stays as it was recorded.
pub proof fn shim_record_follows_action(
    game_path: Seq<char>,
    manifest: ManifestView,
    version: Seq<char>,
    disk: Disk,
)
    ensures
        ({
            let installed = carried_out(
                seq![
                    required(
                        Effect::StoreManifest {
                            dir: game_path,
                            manifest: ManifestView {
                                smokeapi: Some(version),
                                creamlinux: manifest.creamlinux,
                            },
                        },
                    ),
                ],
                disk,
            );
            let removed = carried_out(
                seq![
                    required(
                        manifest_effect(
                            game_path,
                            ManifestView { smokeapi: None, creamlinux: manifest.creamlinux },
                        ),
                    ),
                ],
                disk,
            );
            &&& state_for(recorded(installed, game_path).smokeapi) == StateView::Installed(version)
            &&& recorded(installed, game_path).creamlinux == manifest.creamlinux
            &&& state_for(recorded(removed, game_path).smokeapi) == StateView::NotInstalled
            &&& recorded(removed, game_path).creamlinux == manifest.creamlinux
        }),
{
    reveal_with_fuel(run, 2);
}

} // verus!
