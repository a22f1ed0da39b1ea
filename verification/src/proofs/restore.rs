//! What the plans of the api shim do to a disk: installing keeps the original of
//! every binary, and removing brings it back.

use vstd::prelude::*;
use crate::plan::{carried_out, run, Content, Disk};
use crate::shim::{
    first_artifact, shim_capture_plan, shim_install_plan, shim_uninstall_plan, ShimTargetView,
};

verus! {

/// The disk after the shim `artifact` was put in the place of the binary `t`,
/// every operation having succeeded.
pub open spec fn shim_installed(t: ShimTargetView, artifact: Seq<char>, disk: Disk) -> Disk {
    carried_out(
        shim_install_plan(
            t.original,
            t.backup->0,
            disk.files.contains_key(t.backup->0),
            disk.files.contains_key(t.original),
            artifact,
        ),
        disk,
    )
}

/// The disk after the original of the binary `t` was brought back, every
/// operation having succeeded.
pub open spec fn shim_uninstalled(t: ShimTargetView, disk: Disk) -> Disk {
    carried_out(
        shim_uninstall_plan(t.original, t.backup->0, disk.files.contains_key(t.backup->0)),
        disk,
    )
}

/// What the binary `t` held before any shim was put in its place: what its
/// backup holds if there is one, else what the binary itself holds.
pub open spec fn pristine(t: ShimTargetView, disk: Disk) -> Content {
    if disk.files.contains_key(t.backup->0) {
        disk.files[t.backup->0]
    } else {
        disk.files[t.original]
    }
}

/// The cached file that is taken for the binary `t`.
pub open spec fn artifact_for(t: ShimTargetView, cached: Seq<Seq<char>>) -> Seq<char> {
    cached[first_artifact(cached, t.wide, 0)->0]
}

/// The disk after the shim was put in the place of each binary of `ts`, in order.
pub open spec fn title_installed(ts: Seq<ShimTargetView>, cached: Seq<Seq<char>>, disk: Disk) -> Disk
    decreases ts.len(),
{
    if ts.len() == 0 {
        disk
    } else {
        shim_installed(
            ts.last(),
            artifact_for(ts.last(), cached),
            title_installed(ts.drop_last(), cached, disk),
        )
    }
}

/// The disk after the original of each binary of `ts` was brought back, in order.
pub open spec fn title_uninstalled(ts: Seq<ShimTargetView>, disk: Disk) -> Disk
    decreases ts.len(),
{
    if ts.len() == 0 {
        disk
    } else {
        shim_uninstalled(ts.last(), title_uninstalled(ts.drop_last(), disk))
    }
}

/// The binaries of `ts` have backups, and no path serves two purposes: no
/// binary is its own backup, or another binary, or another binary's backup, and
/// no two binaries share a backup.
pub open spec fn separate(ts: Seq<ShimTargetView>) -> bool {
    &&& forall|i: int| 0 <= i < ts.len() ==> (#[trigger] ts[i]).backup is Some
    &&& forall|i: int, j: int|
        0 <= i < ts.len() && 0 <= j < ts.len() ==> (#[trigger] ts[i]).original != (
        #[trigger] ts[j]).backup->0
    &&& forall|i: int, j: int|
        0 <= i < ts.len() && 0 <= j < ts.len() && i != j ==> (#[trigger] ts[i]).original != (
        #[trigger] ts[j]).original && ts[i].backup->0 != ts[j].backup->0
}

/// The cache holds a shim for each binary of `ts`, every cached file is on the
/// disk, and none of them is a binary of the title or a backup.
pub open spec fn cache_serves(ts: Seq<ShimTargetView>, cached: Seq<Seq<char>>, disk: Disk) -> bool {
    &&& forall|i: int|
        0 <= i < ts.len() ==> first_artifact(cached, (#[trigger] ts[i]).wide, 0) is Some
    &&& forall|k: int| 0 <= k < cached.len() ==> disk.files.contains_key(#[trigger] cached[k])
    &&& forall|k: int, i: int|
        0 <= k < cached.len() && 0 <= i < ts.len() ==> (#[trigger] cached[k]) != (
        #[trigger] ts[i]).original && cached[k] != ts[i].backup->0
}

pub proof fn first_artifact_in_range(cached: Seq<Seq<char>>, wide: bool, from: int)
    requires
        first_artifact(cached, wide, from) is Some,
    ensures
        from <= first_artifact(cached, wide, from)->0 < cached.len(),
    decreases cached.len() - from,
{
    if 0 <= from < cached.len() && !crate::shim::is_shim_artifact(
        crate::paths::file_name(cached[from]),
        wide,
    ) {
        first_artifact_in_range(cached, wide, from + 1);
    }
}

/// Putting a shim in the place of one binary changes two files at most: the
/// binary now holds the shim, and its backup holds what the binary held before
/// any shim.
pub proof fn install_effect(t: ShimTargetView, artifact: Seq<char>, disk: Disk)
    requires
        t.backup is Some,
        t.original != t.backup->0,
        artifact != t.original,
        artifact != t.backup->0,
        disk.files.contains_key(t.original),
        disk.files.contains_key(artifact),
    ensures
        shim_installed(t, artifact, disk).manifests == disk.manifests,
        shim_installed(t, artifact, disk).files == disk.files.insert(
            t.backup->0,
            pristine(t, disk),
        ).insert(t.original, disk.files[artifact]),
{
    reveal_with_fuel(run, 3);
    let plan = shim_install_plan(
        t.original,
        t.backup->0,
        disk.files.contains_key(t.backup->0),
        true,
        artifact,
    );
    let after = shim_installed(t, artifact, disk);
    let want = disk.files.insert(t.backup->0, pristine(t, disk)).insert(
        t.original,
        disk.files[artifact],
    );
    if disk.files.contains_key(t.backup->0) {
        assert(plan.len() == 1);
        assert(after.files =~= want);
    } else {
        assert(plan.len() == 2);
        assert(after.files =~= want);
    }
}

/// Bringing back the original of one binary changes two files at most: where
/// there is a backup, the binary holds what the backup held and the backup is
/// gone; where there is none, nothing changes.
pub proof fn uninstall_effect(t: ShimTargetView, disk: Disk)
    requires
        t.backup is Some,
        t.original != t.backup->0,
    ensures
        shim_uninstalled(t, disk).manifests == disk.manifests,
        shim_uninstalled(t, disk).files == if disk.files.contains_key(t.backup->0) {
            disk.files.remove(t.backup->0).insert(t.original, disk.files[t.backup->0])
        } else {
            disk.files
        },
{
    reveal_with_fuel(run, 3);
    let after = shim_uninstalled(t, disk);
    if disk.files.contains_key(t.backup->0) {
        assert(after.files =~= disk.files.remove(t.backup->0).insert(
            t.original,
            disk.files[t.backup->0],
        ));
    }
}

/// However the installation of a shim ends, the original of the binary is not
/// lost and nothing but the binary and its backup is touched: the backup is made
/// before the binary is overwritten, so what the binary held before any shim is
/// in its backup, or, while there is no backup, still in the binary itself.
pub proof fn install_never_loses_the_original(
    t: ShimTargetView,
    artifact: Seq<char>,
    disk: Disk,
    ok: spec_fn(int) -> bool,
)
    requires
        t.backup is Some,
        t.original != t.backup->0,
        artifact != t.original,
        artifact != t.backup->0,
        disk.files.contains_key(t.original),
    ensures
        ({
            let end = run(
                shim_install_plan(
                    t.original,
                    t.backup->0,
                    disk.files.contains_key(t.backup->0),
                    true,
                    artifact,
                ),
                0,
                disk,
                ok,
            ).disk;
            &&& end.files.contains_key(t.original)
            &&& pristine(t, end) == pristine(t, disk)
            &&& end.manifests == disk.manifests
            &&& forall|p: Seq<char>|
                p != t.original && p != t.backup->0 ==> end.files.contains_key(p)
                    == disk.files.contains_key(p) && (disk.files.contains_key(p) ==> end.files[p]
                    == disk.files[p])
        }),
{
    reveal_with_fuel(run, 3);
}

/// Where the cache holds no shim for a binary, only its original is kept:
/// however that ends, the binary holds what it held, and nothing but the backup
/// is touched; once the step has succeeded, the backup holds what the binary
/// held before any shim.
pub proof fn capture_keeps_the_original(t: ShimTargetView, disk: Disk, ok: spec_fn(int) -> bool)
    requires
        t.backup is Some,
        t.original != t.backup->0,
        disk.files.contains_key(t.original),
    ensures
        ({
            let end = run(
                shim_capture_plan(
                    t.original,
                    t.backup->0,
                    disk.files.contains_key(t.backup->0),
                    true,
                ),
                0,
                disk,
                ok,
            ).disk;
            &&& end.files.contains_key(t.original)
            &&& end.files[t.original] == disk.files[t.original]
            &&& pristine(t, end) == pristine(t, disk)
            &&& ok(0) ==> end.files.contains_key(t.backup->0)
            &&& end.manifests == disk.manifests
            &&& forall|p: Seq<char>|
                p != t.backup->0 ==> end.files.contains_key(p) == disk.files.contains_key(p) && (
                disk.files.contains_key(p) ==> end.files[p] == disk.files[p])
        }),
{
    reveal_with_fuel(run, 2);
}

/// However the removal of a shim ends, the original of the binary is not lost
/// and nothing but the binary and its backup is touched: what the backup held
/// is in the backup still, or in the binary.
pub proof fn uninstall_never_loses_the_original(
    t: ShimTargetView,
    disk: Disk,
    ok: spec_fn(int) -> bool,
)
    requires
        t.backup is Some,
        t.original != t.backup->0,
        disk.files.contains_key(t.backup->0),
    ensures
        ({
            let end = run(shim_uninstall_plan(t.original, t.backup->0, true), 0, disk, ok).disk;
            &&& (end.files.contains_key(t.backup->0) && end.files[t.backup->0]
                == disk.files[t.backup->0]) || (end.files.contains_key(t.original)
                && end.files[t.original] == disk.files[t.backup->0])
            &&& end.manifests == disk.manifests
            &&& forall|p: Seq<char>|
                p != t.original && p != t.backup->0 ==> end.files.contains_key(p)
                    == disk.files.contains_key(p) && (disk.files.contains_key(p) ==> end.files[p]
                    == disk.files[p])
        }),
{
    reveal_with_fuel(run, 5);
}

/// After the shim was installed for the first `k` binaries of `ts`, each of
/// them holds its shim and has its pristine content in its backup, and the
/// others are as they were.
proof fn installed_prefix(ts: Seq<ShimTargetView>, cached: Seq<Seq<char>>, disk: Disk, k: int)
    requires
        separate(ts),
        cache_serves(ts, cached, disk),
        forall|i: int| 0 <= i < ts.len() ==> disk.files.contains_key((#[trigger] ts[i]).original),
        0 <= k <= ts.len(),
    ensures
        ({
            let d = title_installed(ts.take(k), cached, disk);
            &&& d.manifests == disk.manifests
            &&& forall|c: int|
                0 <= c < cached.len() ==> d.files.contains_key(#[trigger] cached[c])
                    && d.files[cached[c]] == disk.files[cached[c]]
            &&& forall|i: int|
                0 <= i < k ==> d.files.contains_key((#[trigger] ts[i]).original)
                    && d.files.contains_key(ts[i].backup->0) && d.files[ts[i].backup->0]
                    == pristine(ts[i], disk)
            &&& forall|i: int|
                k <= i < ts.len() ==> d.files.contains_key((#[trigger] ts[i]).original)
                    && d.files[ts[i].original] == disk.files[ts[i].original]
                    && d.files.contains_key(ts[i].backup->0) == disk.files.contains_key(
                    ts[i].backup->0,
                ) && d.files[ts[i].backup->0] == disk.files[ts[i].backup->0]
        }),
    decreases k,
{
    if k > 0 {
        installed_prefix(ts, cached, disk, k - 1);
        assert(ts.take(k).drop_last() == ts.take(k - 1));
        assert(ts.take(k).last() == ts[k - 1]);
        let prev = title_installed(ts.take(k - 1), cached, disk);
        let t = ts[k - 1];
        first_artifact_in_range(cached, t.wide, 0);
        let a = artifact_for(t, cached);
        assert(a == cached[first_artifact(cached, t.wide, 0)->0]);
        install_effect(t, a, prev);
        let d = title_installed(ts.take(k), cached, disk);
        assert(d == shim_installed(t, a, prev));
        assert(pristine(t, prev) == pristine(t, disk));
        assert forall|i: int| 0 <= i < k implies d.files.contains_key((#[trigger] ts[i]).original)
            && d.files.contains_key(ts[i].backup->0) && d.files[ts[i].backup->0] == pristine(
            ts[i],
            disk,
        ) by {
            if i < k - 1 {
                assert(ts[i].backup->0 != t.backup->0);
                assert(ts[i].backup->0 != t.original);
            }
        }
        assert forall|i: int| k <= i < ts.len() implies d.files.contains_key(
            (#[trigger] ts[i]).original,
        ) && d.files[ts[i].original] == disk.files[ts[i].original] && d.files.contains_key(
            ts[i].backup->0,
        ) == disk.files.contains_key(ts[i].backup->0) && d.files[ts[i].backup->0]
            == disk.files[ts[i].backup->0] by {
            assert(ts[i].original != t.original);
            assert(ts[i].original != t.backup->0);
            assert(ts[i].backup->0 != t.backup->0);
            assert(ts[i].backup->0 != t.original);
        }
    } else {
        assert(ts.take(0).len() == 0);
    }
}

/// After the originals of the first `k` binaries of `ts` were brought back on
/// `start`, each of them holds what its backup held on `start` and its backup
/// is gone, and the others are as they were on `start`.
proof fn uninstalled_prefix(ts: Seq<ShimTargetView>, start: Disk, k: int)
    requires
        separate(ts),
        forall|i: int| 0 <= i < ts.len() ==> start.files.contains_key((#[trigger] ts[i]).backup->0),
        0 <= k <= ts.len(),
    ensures
        ({
            let d = title_uninstalled(ts.take(k), start);
            &&& d.manifests == start.manifests
            &&& forall|i: int|
                0 <= i < k ==> d.files.contains_key((#[trigger] ts[i]).original)
                    && !d.files.contains_key(ts[i].backup->0) && d.files[ts[i].original]
                    == start.files[ts[i].backup->0]
            &&& forall|i: int|
                k <= i < ts.len() ==> d.files.contains_key((#[trigger] ts[i]).backup->0)
                    && d.files[ts[i].backup->0] == start.files[ts[i].backup->0]
        }),
    decreases k,
{
    if k > 0 {
        uninstalled_prefix(ts, start, k - 1);
        assert(ts.take(k).drop_last() == ts.take(k - 1));
        assert(ts.take(k).last() == ts[k - 1]);
        let prev = title_uninstalled(ts.take(k - 1), start);
        let t = ts[k - 1];
        uninstall_effect(t, prev);
        let d = title_uninstalled(ts.take(k), start);
        assert(d == shim_uninstalled(t, prev));
        assert forall|i: int| 0 <= i < k implies d.files.contains_key((#[trigger] ts[i]).original)
            && !d.files.contains_key(ts[i].backup->0) && d.files[ts[i].original]
            == start.files[ts[i].backup->0] by {
            if i < k - 1 {
                assert(ts[i].original != t.original);
                assert(ts[i].original != t.backup->0);
                assert(ts[i].backup->0 != t.backup->0);
                assert(ts[i].backup->0 != t.original);
            }
        }
        assert forall|i: int| k <= i < ts.len() implies d.files.contains_key(
            (#[trigger] ts[i]).backup->0,
        ) && d.files[ts[i].backup->0] == start.files[ts[i].backup->0] by {
            assert(ts[i].backup->0 != t.backup->0);
            assert(ts[i].backup->0 != t.original);
        }
    } else {
        assert(ts.take(0).len() == 0);
    }
}

/// Installing the api shim for a title and then removing it leaves every
/// patched binary with exactly what it held before any shim was installed, and
/// leaves no backup behind. This holds where every operation succeeds, every
/// binary is on the disk, no path serves two purposes, and the cache holds the
/// shims.
pub proof fn install_then_uninstall_restores(
    ts: Seq<ShimTargetView>,
    cached: Seq<Seq<char>>,
    disk: Disk,
)
    requires
        separate(ts),
        cache_serves(ts, cached, disk),
        forall|i: int| 0 <= i < ts.len() ==> disk.files.contains_key((#[trigger] ts[i]).original),
    ensures
        ({
            let end = title_uninstalled(ts, title_installed(ts, cached, disk));
            &&& end.manifests == disk.manifests
            &&& forall|i: int|
                0 <= i < ts.len() ==> end.files.contains_key((#[trigger] ts[i]).original)
                    && end.files[ts[i].original] == pristine(ts[i], disk)
                    && !end.files.contains_key(ts[i].backup->0)
        }),
{
    installed_prefix(ts, cached, disk, ts.len() as int);
    assert(ts.take(ts.len() as int) == ts);
    let mid = title_installed(ts, cached, disk);
    uninstalled_prefix(ts, mid, ts.len() as int);
}

/// For a title that was never patched, installing the api shim and then
/// removing it restores the bytes of every binary.
pub proof fn fresh_install_then_uninstall_restores(
    ts: Seq<ShimTargetView>,
    cached: Seq<Seq<char>>,
    disk: Disk,
)
    requires
        separate(ts),
        cache_serves(ts, cached, disk),
        forall|i: int| 0 <= i < ts.len() ==> disk.files.contains_key((#[trigger] ts[i]).original),
        forall|i: int| 0 <= i < ts.len() ==> !disk.files.contains_key((#[trigger] ts[i]).backup->0),
    ensures
        ({
            let end = title_uninstalled(ts, title_installed(ts, cached, disk));
            forall|i: int|
                0 <= i < ts.len() ==> end.files.contains_key((#[trigger] ts[i]).original)
                    && end.files[ts[i].original] == disk.files[ts[i].original]
                    && !end.files.contains_key(ts[i].backup->0)
        }),
{
    install_then_uninstall_restores(ts, cached, disk);
}

} // verus!
