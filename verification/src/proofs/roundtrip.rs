//! Installing the api shim for a title and removing it again brings back every
//! binary, whatever the cache holds and however often a binary is listed.

use vstd::prelude::*;
use crate::paths::{
    backup_name, backup_name_is_injective, backup_name_is_plain, file_name, joined, path_splits,
    sibling, sibling_splits,
};
use crate::plan::{carried_out, run, Disk};
use crate::shim::{planned_steps, shim_uninstall_plan, targets_of, ShimTargetView};
use crate::text::after_last;

verus! {

/// The disk after the work on the binary `t` of an installation, every
/// operation having succeeded: the steps are those planned for what the disk
/// holds and for the cached files `cached`.
pub open spec fn unit_installed(t: ShimTargetView, cached: Seq<Seq<char>>, disk: Disk) -> Disk {
    carried_out(
        planned_steps(
            t,
            disk.files.contains_key(t.backup->0),
            disk.files.contains_key(t.original),
            cached,
        ),
        disk,
    )
}

/// The disk after the work on the binary `t` of a removal, every operation
/// having succeeded.
pub open spec fn unit_uninstalled(t: ShimTargetView, disk: Disk) -> Disk {
    match t.backup {
        Some(b) => carried_out(
            shim_uninstall_plan(t.original, b, disk.files.contains_key(b)),
            disk,
        ),
        None => disk,
    }
}

/// The disk after the first `k` binaries of `ts` were worked on in an installation.
pub open spec fn installed_upto(
    ts: Seq<ShimTargetView>,
    cached: Seq<Seq<char>>,
    disk: Disk,
    k: int,
) -> Disk
    decreases k,
{
    if k <= 0 {
        disk
    } else {
        unit_installed(ts[k - 1], cached, installed_upto(ts, cached, disk, k - 1))
    }
}

/// The disk after the first `k` binaries of `ts` were worked on in a removal.
pub open spec fn uninstalled_upto(ts: Seq<ShimTargetView>, disk: Disk, k: int) -> Disk
    decreases k,
{
    if k <= 0 {
        disk
    } else {
        unit_uninstalled(ts[k - 1], uninstalled_upto(ts, disk, k - 1))
    }
}

/// The backup of a binary goes with its path: two entries for one binary have
/// one backup, and two binaries never share a backup.
pub open spec fn consistent(ts: Seq<ShimTargetView>) -> bool {
    forall|i: int, j: int|
        0 <= i < ts.len() && 0 <= j < ts.len() ==> ((#[trigger] ts[i]).original == (
        #[trigger] ts[j]).original ==> ts[i].backup == ts[j].backup) && (ts[i].backup is Some
            && ts[i].backup == ts[j].backup ==> ts[i].original == ts[j].original)
}

/// The title was never patched: every binary that can have a backup is on the
/// disk, and none of the backups is.
pub open spec fn untouched(ts: Seq<ShimTargetView>, disk: Disk) -> bool {
    forall|i: int|
        0 <= i < ts.len() && (#[trigger] ts[i]).backup is Some ==> disk.files.contains_key(
            ts[i].original,
        ) && !disk.files.contains_key(ts[i].backup->0)
}

/// One of the first `k` entries is for the binary at `original`.
pub open spec fn worked_on(ts: Seq<ShimTargetView>, k: int, original: Seq<char>) -> bool {
    exists|j: int| 0 <= j < k && (#[trigger] ts[j]).original == original
}

/// The targets made for the binaries of a title are consistent, whatever the
/// binaries are called.
pub proof fn targets_are_consistent(game_path: Seq<char>, api_files: Seq<Seq<char>>)
    ensures
        consistent(targets_of(game_path, api_files)),
{
    let ts = targets_of(game_path, api_files);
    assert forall|i: int, j: int| 0 <= i < ts.len() && 0 <= j < ts.len() implies ((
    #[trigger] ts[i]).original == (#[trigger] ts[j]).original ==> ts[i].backup == ts[j].backup)
        && (ts[i].backup is Some && ts[i].backup == ts[j].backup ==> ts[i].original
        == ts[j].original) by {
        let pi = joined(game_path, api_files[i]);
        let pj = joined(game_path, api_files[j]);
        if ts[i].backup is Some && ts[i].backup == ts[j].backup {
            let bi = backup_name(file_name(pi))->0;
            let bj = backup_name(file_name(pj))->0;
            path_splits(pi);
            path_splits(pj);
            backup_name_is_plain(file_name(pi));
            backup_name_is_plain(file_name(pj));
            sibling_splits(pi, bi);
            sibling_splits(pj, bj);
            assert(sibling(pi, bi) == sibling(pj, bj));
            assert(bi == bj);
            backup_name_is_injective(file_name(pi), file_name(pj));
            assert(pi.take(after_last(pi, '/')) == pj.take(after_last(pj, '/')));
            assert(pi == pj);
        }
    }
}

/// The work on one binary of an installation touches the binary and its backup
/// only; afterwards the binary is there, and its backup is there and holds what
/// it held, or, if there was none, what the binary held.
pub proof fn unit_install_effect(t: ShimTargetView, cached: Seq<Seq<char>>, disk: Disk)
    requires
        t.backup is Some,
        t.original != t.backup->0,
        disk.files.contains_key(t.original),
    ensures
        ({
            let end = unit_installed(t, cached, disk);
            &&& end.manifests == disk.manifests
            &&& end.files.contains_key(t.original)
            &&& end.files.contains_key(t.backup->0)
            &&& end.files[t.backup->0] == if disk.files.contains_key(t.backup->0) {
                disk.files[t.backup->0]
            } else {
                disk.files[t.original]
            }
            &&& forall|p: Seq<char>|
                p != t.original && p != t.backup->0 ==> (#[trigger] end.files.contains_key(p))
                    == disk.files.contains_key(p) && (disk.files.contains_key(p) ==> end.files[p]
                    == disk.files[p])
        }),
{
    reveal_with_fuel(run, 3);
}

/// The work on one binary of a removal touches the binary and its backup only;
/// where there was a backup, the binary holds afterwards what the backup held
/// and the backup is gone; where there was none, nothing has changed.
pub proof fn unit_uninstall_effect(t: ShimTargetView, disk: Disk)
    requires
        t.backup is Some,
        t.original != t.backup->0,
    ensures
        ({
            let end = unit_uninstalled(t, disk);
            &&& end.manifests == disk.manifests
            &&& !disk.files.contains_key(t.backup->0) ==> end == disk
            &&& disk.files.contains_key(t.backup->0) ==> end.files.contains_key(t.original)
                && end.files[t.original] == disk.files[t.backup->0] && !end.files.contains_key(
                t.backup->0,
            )
            &&& forall|p: Seq<char>|
                p != t.original && p != t.backup->0 ==> (#[trigger] end.files.contains_key(p))
                    == disk.files.contains_key(p) && (disk.files.contains_key(p) ==> end.files[p]
                    == disk.files[p])
        }),
{
    reveal_with_fuel(run, 3);
}

/// During the installation, every binary that was worked on has its backup,
/// which holds what the binary held at first; every other binary is as it was.
proof fn installing_keeps_originals(
    ts: Seq<ShimTargetView>,
    cached: Seq<Seq<char>>,
    disk: Disk,
    k: int,
)
    requires
        consistent(ts),
        untouched(ts, disk),
        0 <= k <= ts.len(),
    ensures
        ({
            let d = installed_upto(ts, cached, disk, k);
            &&& d.manifests == disk.manifests
            &&& forall|i: int|
                0 <= i < ts.len() && (#[trigger] ts[i]).backup is Some ==> d.files.contains_key(
                    ts[i].original,
                ) && if worked_on(ts, k, ts[i].original) {
                    d.files.contains_key(ts[i].backup->0) && d.files[ts[i].backup->0]
                        == disk.files[ts[i].original]
                } else {
                    !d.files.contains_key(ts[i].backup->0) && d.files[ts[i].original]
                        == disk.files[ts[i].original]
                }
        }),
    decreases k,
{
    if k > 0 {
        installing_keeps_originals(ts, cached, disk, k - 1);
        let before = installed_upto(ts, cached, disk, k - 1);
        let t = ts[k - 1];
        let d = installed_upto(ts, cached, disk, k);
        assert(d == unit_installed(t, cached, before));
        if t.backup is Some {
            assert(t.original != t.backup->0);
            unit_install_effect(t, cached, before);
        } else {
            reveal_with_fuel(run, 1);
            assert(d == before);
        }
        assert forall|i: int|
            0 <= i < ts.len() && (#[trigger] ts[i]).backup is Some implies d.files.contains_key(
            ts[i].original,
        ) && if worked_on(ts, k, ts[i].original) {
            d.files.contains_key(ts[i].backup->0) && d.files[ts[i].backup->0]
                == disk.files[ts[i].original]
        } else {
            !d.files.contains_key(ts[i].backup->0) && d.files[ts[i].original]
                == disk.files[ts[i].original]
        } by {
            let o = ts[i].original;
            if worked_on(ts, k - 1, o) {
                let j = choose|j: int| 0 <= j < k - 1 && (#[trigger] ts[j]).original == o;
                assert(0 <= j < k && ts[j].original == o);
            }
            if worked_on(ts, k, o) && !worked_on(ts, k - 1, o) {
                let j = choose|j: int| 0 <= j < k && (#[trigger] ts[j]).original == o;
                assert(j == k - 1);
            }
            let b = ts[i].backup->0;
            assert(before.files.contains_key(o));
            if t.original == o {
                assert(ts[k - 1].original == o);
                assert(worked_on(ts, k, o));
                assert(t.backup == ts[i].backup);
                assert(d.files.contains_key(o));
                assert(d.files.contains_key(b));
                assert(d.files[b] == disk.files[o]);
            } else if t.backup is Some {
                assert(t.backup != ts[i].backup);
                assert(disk.files.contains_key(t.original));
                assert(!disk.files.contains_key(b));
                assert(disk.files.contains_key(o));
                assert(!disk.files.contains_key(t.backup->0));
                assert(o != t.original && o != t.backup->0);
                assert(b != t.original && b != t.backup->0);
                assert(d.files.contains_key(o) == before.files.contains_key(o));
                assert(d.files[o] == before.files[o]);
                assert(d.files.contains_key(b) == before.files.contains_key(b));
                assert(before.files.contains_key(b) ==> d.files[b] == before.files[b]);
                assert(worked_on(ts, k, o) == worked_on(ts, k - 1, o));
            } else {
                assert(d == before);
                assert(worked_on(ts, k, o) == worked_on(ts, k - 1, o));
            }
        }
    } else {
        assert forall|i: int| 0 <= i < ts.len() implies !worked_on(
            ts,
            0,
            (#[trigger] ts[i]).original,
        ) by {}
    }
}

/// During the removal, every binary that was worked on holds what it held
/// before the installation and has no backup; every other binary still has its
/// backup, which holds what the binary held at first.
proof fn removing_brings_originals_back(
    ts: Seq<ShimTargetView>,
    first: Disk,
    start: Disk,
    k: int,
)
    requires
        consistent(ts),
        untouched(ts, first),
        forall|i: int|
            0 <= i < ts.len() && (#[trigger] ts[i]).backup is Some ==> start.files.contains_key(
                ts[i].backup->0,
            ) && start.files[ts[i].backup->0] == first.files[ts[i].original],
        0 <= k <= ts.len(),
    ensures
        ({
            let d = uninstalled_upto(ts, start, k);
            &&& d.manifests == start.manifests
            &&& forall|i: int|
                0 <= i < ts.len() && (#[trigger] ts[i]).backup is Some ==> if worked_on(
                    ts,
                    k,
                    ts[i].original,
                ) {
                    d.files.contains_key(ts[i].original) && d.files[ts[i].original]
                        == first.files[ts[i].original] && !d.files.contains_key(ts[i].backup->0)
                } else {
                    d.files.contains_key(ts[i].backup->0) && d.files[ts[i].backup->0]
                        == first.files[ts[i].original]
                }
        }),
    decreases k,
{
    if k > 0 {
        removing_brings_originals_back(ts, first, start, k - 1);
        let before = uninstalled_upto(ts, start, k - 1);
        let t = ts[k - 1];
        let d = uninstalled_upto(ts, start, k);
        assert(d == unit_uninstalled(t, before));
        if t.backup is Some {
            assert(t.original != t.backup->0);
            unit_uninstall_effect(t, before);
        }
        assert forall|i: int|
            0 <= i < ts.len() && (#[trigger] ts[i]).backup is Some implies if worked_on(
            ts,
            k,
            ts[i].original,
        ) {
            d.files.contains_key(ts[i].original) && d.files[ts[i].original]
                == first.files[ts[i].original] && !d.files.contains_key(ts[i].backup->0)
        } else {
            d.files.contains_key(ts[i].backup->0) && d.files[ts[i].backup->0]
                == first.files[ts[i].original]
        } by {
            let o = ts[i].original;
            if worked_on(ts, k - 1, o) {
                let j = choose|j: int| 0 <= j < k - 1 && (#[trigger] ts[j]).original == o;
                assert(0 <= j < k && ts[j].original == o);
            }
            if worked_on(ts, k, o) && !worked_on(ts, k - 1, o) {
                let j = choose|j: int| 0 <= j < k && (#[trigger] ts[j]).original == o;
                assert(j == k - 1);
            }
            let b = ts[i].backup->0;
            if t.original == o {
                assert(ts[k - 1].original == o);
                assert(worked_on(ts, k, o));
                assert(t.backup == ts[i].backup);
            } else if t.backup is Some {
                assert(t.backup != ts[i].backup);
                assert(first.files.contains_key(t.original));
                assert(!first.files.contains_key(b));
                assert(first.files.contains_key(o));
                assert(!first.files.contains_key(t.backup->0));
                assert(o != t.original && o != t.backup->0);
                assert(b != t.original && b != t.backup->0);
                assert(d.files.contains_key(o) == before.files.contains_key(o));
                assert(before.files.contains_key(o) ==> d.files[o] == before.files[o]);
                assert(d.files.contains_key(b) == before.files.contains_key(b));
                assert(before.files.contains_key(b) ==> d.files[b] == before.files[b]);
                assert(worked_on(ts, k, o) == worked_on(ts, k - 1, o));
            } else {
                assert(d == before);
                assert(worked_on(ts, k, o) == worked_on(ts, k - 1, o));
            }
        }
    } else {
        assert forall|i: int| 0 <= i < ts.len() implies !worked_on(
            ts,
            0,
            (#[trigger] ts[i]).original,
        ) by {}
    }
}

/// For a title that was never patched, installing the api shim and then
/// removing it leaves every binary with exactly the bytes it held and leaves no
/// backup behind. This holds where every operation succeeds, whatever the cache
/// holds, whether or not it holds a shim for every width, and however often a
/// binary is listed.
pub proof fn install_then_uninstall_restores_every_binary(
    ts: Seq<ShimTargetView>,
    cached: Seq<Seq<char>>,
    disk: Disk,
)
    requires
        consistent(ts),
        untouched(ts, disk),
    ensures
        ({
            let n = ts.len() as int;
            let end = uninstalled_upto(ts, installed_upto(ts, cached, disk, n), n);
            &&& end.manifests == disk.manifests
            &&& forall|i: int|
                0 <= i < ts.len() && (#[trigger] ts[i]).backup is Some ==> end.files.contains_key(
                    ts[i].original,
                ) && end.files[ts[i].original] == disk.files[ts[i].original]
                    && !end.files.contains_key(ts[i].backup->0)
        }),
{
    let n = ts.len() as int;
    installing_keeps_originals(ts, cached, disk, n);
    let mid = installed_upto(ts, cached, disk, n);
    assert forall|i: int|
        0 <= i < ts.len() && (#[trigger] ts[i]).backup is Some implies mid.files.contains_key(
        ts[i].backup->0,
    ) && mid.files[ts[i].backup->0] == disk.files[ts[i].original] by {
        assert(worked_on(ts, n, ts[i].original));
    }
    removing_brings_originals_back(ts, disk, mid, n);
    let end = uninstalled_upto(ts, mid, n);
    assert forall|i: int|
        0 <= i < ts.len() && (#[trigger] ts[i]).backup is Some implies end.files.contains_key(
        ts[i].original,
    ) && end.files[ts[i].original] == disk.files[ts[i].original] && !end.files.contains_key(
        ts[i].backup->0,
    ) by {
        assert(worked_on(ts, n, ts[i].original));
    }
}

/// For the binaries `api_files` of the title in `game_path`, each of which is
/// on the disk and has no backup beside it: installing the api shim and then
/// removing it leaves each binary with exactly the bytes it held, and no backup
/// beside it. This holds where every operation succeeds.
pub proof fn title_is_restored(
    game_path: Seq<char>,
    api_files: Seq<Seq<char>>,
    cached: Seq<Seq<char>>,
    disk: Disk,
)
    requires
        untouched(targets_of(game_path, api_files), disk),
    ensures
        ({
            let ts = targets_of(game_path, api_files);
            let n = ts.len() as int;
            let end = uninstalled_upto(ts, installed_upto(ts, cached, disk, n), n);
            forall|i: int|
                0 <= i < ts.len() && (#[trigger] ts[i]).backup is Some ==> end.files.contains_key(
                    ts[i].original,
                ) && end.files[ts[i].original] == disk.files[ts[i].original]
                    && !end.files.contains_key(ts[i].backup->0)
        }),
{
    targets_are_consistent(game_path, api_files);
    install_then_uninstall_restores_every_binary(targets_of(game_path, api_files), cached, disk);
}

} // verus!
