//! Installing the content unlocker a second time changes nothing: every file
//! is overwritten with what it holds already.

use vstd::prelude::*;
use crate::dlc::DlcView;
use crate::installer::{copy_steps, cream_install_plan, file_steps};
use crate::manifest::ManifestView;
use crate::paths::{file_name, joined};
use crate::plan::{all_succeed, apply, carried_out, run, After, Content, Disk, Effect, StepView};

verus! {

/// The file that the operation reads.
pub open spec fn source(op: Effect) -> Option<Seq<char>> {
    match op {
        Effect::Copy { from, to } => Some(from),
        _ => None,
    }
}

/// The file that the operation writes.
pub open spec fn target(op: Effect) -> Option<Seq<char>> {
    match op {
        Effect::Copy { from, to } => Some(to),
        Effect::Write { path, contents } => Some(path),
        _ => None,
    }
}

/// The operation only adds: it copies, writes, grants a right or stores a record.
pub open spec fn is_addition(op: Effect) -> bool {
    op is Copy || op is Write || op is MakeExecutable || op is StoreManifest
}

/// A plan of additions in which every step must succeed, no file is written
/// twice, no file that is read is written, and only the last step stores a
/// record.
pub open spec fn is_overwriting(plan: Seq<StepView>) -> bool {
    &&& forall|i: int|
        0 <= i < plan.len() ==> (#[trigger] plan[i]).on_success == After::Next
            && plan[i].on_failure == After::Fail && is_addition(plan[i].op)
    &&& forall|i: int, j: int|
        0 <= i < plan.len() && 0 <= j < plan.len() && source((#[trigger] plan[i]).op) is Some
            && target((#[trigger] plan[j]).op) is Some ==> source(plan[i].op) != target(
            plan[j].op,
        )
    &&& forall|i: int, j: int|
        0 <= i < j < plan.len() && target((#[trigger] plan[i]).op) is Some && target(
            (#[trigger] plan[j]).op,
        ) is Some ==> target(plan[i].op) != target(plan[j].op)
    &&& forall|i: int| 0 <= i < plan.len() - 1 ==> !((#[trigger] plan[i]).op is StoreManifest)
}

/// Every file that `plan` reads is on `disk` and holds what it held on `base`.
pub open spec fn sources_kept(plan: Seq<StepView>, base: Disk, disk: Disk) -> bool {
    forall|i: int|
        0 <= i < plan.len() && source((#[trigger] plan[i]).op) is Some
            ==> disk.files.contains_key(source(plan[i].op)->0) && base.files.contains_key(
            source(plan[i].op)->0,
        ) && disk.files[source(plan[i].op)->0] == base.files[source(plan[i].op)->0]
}

/// The operation has taken effect on `disk`: what it writes is there.
pub open spec fn in_effect(op: Effect, base: Disk, disk: Disk) -> bool {
    match op {
        Effect::Copy { from, to } => disk.files.contains_key(to) && disk.files[to]
            == base.files[from],
        Effect::Write { path, contents } => disk.files.contains_key(path) && disk.files[path]
            == Content::Text(contents),
        Effect::StoreManifest { dir, manifest } => disk.manifests.contains_key(dir)
            && disk.manifests[dir] == manifest,
        _ => true,
    }
}

/// The first `k` operations of `plan` have taken effect on `disk`.
pub open spec fn done_upto(plan: Seq<StepView>, k: int, base: Disk, disk: Disk) -> bool {
    forall|i: int| 0 <= i < k && i < plan.len() ==> in_effect((#[trigger] plan[i]).op, base, disk)
}

/// Carried out from step `pc` on a disk on which the earlier steps have taken
/// effect, an overwriting plan completes with every step in effect and every
/// file it reads as it was.
proof fn all_take_effect(plan: Seq<StepView>, pc: int, base: Disk, cur: Disk)
    requires
        is_overwriting(plan),
        0 <= pc <= plan.len(),
        sources_kept(plan, base, cur),
        done_upto(plan, pc, base, cur),
    ensures
        run(plan, pc, cur, all_succeed()).completed,
        sources_kept(plan, base, run(plan, pc, cur, all_succeed()).disk),
        done_upto(plan, plan.len() as int, base, run(plan, pc, cur, all_succeed()).disk),
    decreases plan.len() - pc,
{
    reveal_with_fuel(run, 2);
    if pc < plan.len() {
        let op = plan[pc].op;
        let next = apply(op, cur);
        assert(sources_kept(plan, base, next)) by {
            assert forall|i: int|
                0 <= i < plan.len() && source((#[trigger] plan[i]).op) is Some implies next.files.contains_key(
                source(plan[i].op)->0,
            ) && base.files.contains_key(source(plan[i].op)->0)
                && next.files[source(plan[i].op)->0] == base.files[source(plan[i].op)->0] by {
                if target(op) is Some {
                    assert(source(plan[i].op) != target(plan[pc].op));
                }
            }
        }
        assert(done_upto(plan, pc + 1, base, next)) by {
            assert forall|i: int| 0 <= i < pc + 1 && i < plan.len() implies in_effect(
                (#[trigger] plan[i]).op,
                base,
                next,
            ) by {
                if i < pc {
                    assert(in_effect(plan[i].op, base, cur));
                    if target(plan[i].op) is Some && target(op) is Some {
                        assert(target(plan[i].op) != target(plan[pc].op));
                    }
                    assert(!(plan[i].op is StoreManifest));
                } else {
                    assert(source(plan[pc].op) is Some ==> cur.files.contains_key(
                        source(plan[pc].op)->0,
                    ));
                }
            }
        }
        all_take_effect(plan, pc + 1, base, next);
    }
}

/// Carried out on a disk on which all of its steps are in effect, an
/// overwriting plan leaves the disk as it is.
proof fn nothing_left_to_do(plan: Seq<StepView>, pc: int, base: Disk, cur: Disk)
    requires
        is_overwriting(plan),
        0 <= pc <= plan.len(),
        sources_kept(plan, base, cur),
        done_upto(plan, plan.len() as int, base, cur),
    ensures
        run(plan, pc, cur, all_succeed()).disk == cur,
        run(plan, pc, cur, all_succeed()).completed,
    decreases plan.len() - pc,
{
    reveal_with_fuel(run, 2);
    if pc < plan.len() {
        let op = plan[pc].op;
        let next = apply(op, cur);
        assert(in_effect(plan[pc].op, base, cur));
        assert(source(plan[pc].op) is Some ==> cur.files[source(plan[pc].op)->0]
            == base.files[source(plan[pc].op)->0]);
        assert(next.files =~= cur.files);
        assert(next.manifests =~= cur.manifests);
        assert(next == cur);
        nothing_left_to_do(plan, pc + 1, base, cur);
    }
}

/// Carrying out an overwriting plan a second time changes nothing, where every
/// operation succeeds and the files that the plan reads are on the disk.
pub proof fn rerun_changes_nothing(plan: Seq<StepView>, disk: Disk)
    requires
        is_overwriting(plan),
        forall|i: int|
            0 <= i < plan.len() && source((#[trigger] plan[i]).op) is Some
                ==> disk.files.contains_key(source(plan[i].op)->0),
    ensures
        carried_out(plan, carried_out(plan, disk)) == carried_out(plan, disk),
{
    all_take_effect(plan, 0, disk, disk);
    let once = carried_out(plan, disk);
    nothing_left_to_do(plan, 0, disk, once);
}

/// The cached file that stands behind a step of the copying: the step copies
/// it into the title or makes its copy executable.
pub open spec fn copies(game_path: Seq<char>, file: Seq<char>, step: StepView) -> bool {
    step.on_success == After::Next && step.on_failure == After::Fail && (step.op
        == Effect::Copy { from: file, to: joined(game_path, file_name(file)) } || step.op
        == Effect::MakeExecutable { path: joined(game_path, file_name(file)) })
}

/// Each step of the copying stands for one of the cached files, later steps for
/// the same or later files, and the copies of one file only for that file.
proof fn copy_steps_follow_files(game_path: Seq<char>, files: Seq<Seq<char>>)
    ensures
        exists|origin: Seq<int>| #[trigger]
            follows(game_path, files, copy_steps(game_path, files), origin),
    decreases files.len(),
{
    let steps = copy_steps(game_path, files);
    if files.len() == 0 {
        assert(follows(game_path, files, steps, Seq::<int>::empty()));
    } else {
        copy_steps_follow_files(game_path, files.drop_last());
        let before = copy_steps(game_path, files.drop_last());
        let old = choose|origin: Seq<int>| #[trigger]
            follows(game_path, files.drop_last(), before, origin);
        let last = files.len() - 1;
        let added = file_steps(game_path, files.last());
        let origin = old + Seq::new(added.len(), |i: int| last);
        assert(steps == before + added);
        assert forall|i: int| 0 <= i < steps.len() implies 0 <= #[trigger] origin[i] < files.len()
            && copies(game_path, files[origin[i]], steps[i]) by {
            if i < before.len() {
                assert(origin[i] == old[i]);
                assert(steps[i] == before[i]);
                assert(files.drop_last()[old[i]] == files[old[i]]);
            } else {
                assert(steps[i] == added[i - before.len()]);
            }
        }
        assert forall|i: int, j: int| 0 <= i < j < steps.len() implies #[trigger] origin[i]
            <= #[trigger] origin[j] && (origin[i] == origin[j] && steps[i].op is Copy ==> !(
        steps[j].op is Copy)) by {
            if j < before.len() {
                assert(origin[i] == old[i]);
                assert(origin[j] == old[j]);
            } else if i < before.len() {
                assert(origin[i] == old[i]);
                assert(0 <= old[i] < files.drop_last().len());
            } else {
                assert(steps[i] == added[i - before.len()]);
                assert(steps[j] == added[j - before.len()]);
            }
        }
        assert(follows(game_path, files, steps, origin));
    }
}

/// `origin` names, for each step of `steps`, the cached file that the step
/// stands for.
pub open spec fn follows(
    game_path: Seq<char>,
    files: Seq<Seq<char>>,
    steps: Seq<StepView>,
    origin: Seq<int>,
) -> bool {
    &&& origin.len() == steps.len()
    &&& forall|i: int|
        0 <= i < steps.len() ==> 0 <= #[trigger] origin[i] < files.len() && copies(
            game_path,
            files[origin[i]],
            steps[i],
        )
    &&& forall|i: int, j: int|
        0 <= i < j < steps.len() ==> #[trigger] origin[i] <= #[trigger] origin[j] && (origin[i]
            == origin[j] && steps[i].op is Copy ==> !(steps[j].op is Copy))
}

/// The cached files can be installed over and over: they land at different
/// places in the title, none of them at the place of the configuration, and no
/// cached file lies where one lands or where the configuration is written.
pub open spec fn installs_cleanly(game_path: Seq<char>, files: Seq<Seq<char>>) -> bool {
    &&& forall|i: int, j: int|
        0 <= i < j < files.len() ==> joined(game_path, file_name(#[trigger] files[i])) != joined(
            game_path,
            file_name(#[trigger] files[j]),
        )
    &&& forall|i: int, j: int|
        0 <= i < files.len() && 0 <= j < files.len() ==> (#[trigger] files[i]) != joined(
            game_path,
            file_name(#[trigger] files[j]),
        )
    &&& forall|i: int|
        0 <= i < files.len() ==> (#[trigger] files[i]) != joined(game_path, "cream_api.ini"@)
            && joined(game_path, file_name(files[i])) != joined(game_path, "cream_api.ini"@)
}

/// Installing the content unlocker again, from the same cache and for the same
/// add-ons, changes nothing on the disk, where every operation succeeds and the
/// cached files install cleanly.
pub proof fn reinstall_changes_nothing(
    game_path: Seq<char>,
    app_id: Seq<char>,
    files: Seq<Seq<char>>,
    dlcs: Seq<DlcView>,
    manifest: ManifestView,
    version: Seq<char>,
    disk: Disk,
)
    requires
        installs_cleanly(game_path, files),
        forall|i: int| 0 <= i < files.len() ==> disk.files.contains_key(#[trigger] files[i]),
    ensures
        ({
            let plan = cream_install_plan(game_path, app_id, files, dlcs, manifest, version);
            carried_out(plan, carried_out(plan, disk)) == carried_out(plan, disk)
        }),
{
    let plan = cream_install_plan(game_path, app_id, files, dlcs, manifest, version);
    let steps = copy_steps(game_path, files);
    copy_steps_follow_files(game_path, files);
    let origin = choose|origin: Seq<int>| #[trigger] follows(game_path, files, steps, origin);
    let n = steps.len() as int;
    assert(plan.len() == n + 2);
    assert forall|i: int| 0 <= i < n implies #[trigger] plan[i] == steps[i] by {}
    assert forall|i: int| 0 <= i < plan.len() implies (#[trigger] plan[i]).on_success
        == After::Next && plan[i].on_failure == After::Fail && is_addition(plan[i].op) by {
        if i < n {
            assert(copies(game_path, files[origin[i]], steps[i]));
        }
    }
    assert forall|i: int, j: int|
        0 <= i < plan.len() && 0 <= j < plan.len() && source((#[trigger] plan[i]).op) is Some
            && target((#[trigger] plan[j]).op) is Some implies source(plan[i].op) != target(
        plan[j].op,
    ) by {
        assert(i < n);
        assert(copies(game_path, files[origin[i]], steps[i]));
        assert(source(plan[i].op)->0 == files[origin[i]]);
        if j < n {
            assert(copies(game_path, files[origin[j]], steps[j]));
        }
    }
    assert forall|i: int, j: int|
        0 <= i < j < plan.len() && target((#[trigger] plan[i]).op) is Some && target(
            (#[trigger] plan[j]).op,
        ) is Some implies target(plan[i].op) != target(plan[j].op) by {
        assert(i < n);
        assert(copies(game_path, files[origin[i]], steps[i]));
        if j < n {
            assert(copies(game_path, files[origin[j]], steps[j]));
            assert(origin[i] <= origin[j]);
            if origin[i] == origin[j] {
                assert(!(steps[j].op is Copy));
            }
        }
    }
    assert forall|i: int| 0 <= i < plan.len() - 1 implies !((#[trigger] plan[i]).op
        is StoreManifest) by {
        if i < n {
            assert(copies(game_path, files[origin[i]], steps[i]));
        }
    }
    assert forall|i: int|
        0 <= i < plan.len() && source((#[trigger] plan[i]).op) is Some implies disk.files.contains_key(
        source(plan[i].op)->0,
    ) by {
        assert(i < n);
        assert(copies(game_path, files[origin[i]], steps[i]));
        assert(source(plan[i].op)->0 == files[origin[i]]);
    }
    rerun_changes_nothing(plan, disk);
}

} // verus!
