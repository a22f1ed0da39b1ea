//! The binaries that a scan collects never share a path or a backup: what the
//! laws of the api shim ask of the binaries of a title holds of them.

use vstd::prelude::*;
use crate::classify::{is_shim_binary, scanned, EntryView};
use crate::paths::{
    backup_name, backup_name_is_injective, backup_name_is_plain, file_name, joined, joined_relative,
    path_splits, sibling, sibling_splits,
};
use crate::plan::Disk;
use crate::proofs::restore::{
    cache_serves, install_then_uninstall_restores, pristine, separate, title_installed,
    title_uninstalled,
};
use crate::shim::targets_of;
use crate::text::{after_last, ascii_lower, lower};

verus! {

/// The name of a binary that the shim can replace has a backup name, and that
/// is not the name of such a binary.
pub proof fn backup_is_no_binary(n: Seq<char>, m: Seq<char>)
    requires
        is_shim_binary(n),
        is_shim_binary(m),
    ensures
        backup_name(m) is Some,
        backup_name(n) is Some,
        n != backup_name(m)->0,
{
    reveal_strlit("steam_api.dll");
    reveal_strlit("steam_api64.dll");
    let short = "steam_api.dll"@;
    let long = "steam_api64.dll"@;
    assert(short.subrange(9, 13) =~= seq!['.', 'd', 'l', 'l']);
    assert(long.subrange(11, 15) =~= seq!['.', 'd', 'l', 'l']);
    assert(lower(m).len() == m.len());
    assert(lower(n).len() == n.len());
    let b = backup_name(m)->0;
    if n == b {
        assert(b.len() == m.len() + 2);
        assert(lower(m) == short);
        assert(lower(n) == long);
        assert(b[9] == '_');
        assert(lower(n)[9] == ascii_lower(n[9]));
        assert(long[9] == '6');
    }
}

/// The binaries `api_files` of the title in `game_path`, each with the name of
/// a binary that the shim can replace and no two at one path, make targets of
/// which no path serves two purposes.
pub proof fn binaries_make_separate_targets(game_path: Seq<char>, api_files: Seq<Seq<char>>)
    requires
        forall|i: int|
            0 <= i < api_files.len() ==> is_shim_binary(
                file_name(#[trigger] joined(game_path, api_files[i])),
            ),
        forall|i: int, j: int|
            0 <= i < j < api_files.len() ==> (#[trigger] joined(game_path, api_files[i])) != (
            #[trigger] joined(game_path, api_files[j])),
    ensures
        separate(targets_of(game_path, api_files)),
{
    let ts = targets_of(game_path, api_files);
    assert forall|i: int| 0 <= i < ts.len() implies (#[trigger] ts[i]).backup is Some by {
        let p = joined(game_path, api_files[i]);
        backup_is_no_binary(file_name(p), file_name(p));
    }
    assert forall|i: int, j: int| 0 <= i < ts.len() && 0 <= j < ts.len() implies (
    #[trigger] ts[i]).original != (#[trigger] ts[j]).backup->0 by {
        let pi = joined(game_path, api_files[i]);
        let pj = joined(game_path, api_files[j]);
        let bj = backup_name(file_name(pj))->0;
        backup_is_no_binary(file_name(pi), file_name(pj));
        path_splits(pj);
        backup_name_is_plain(file_name(pj));
        sibling_splits(pj, bj);
        if pi == sibling(pj, bj) {
            assert(file_name(pi) == bj);
        }
    }
    assert forall|i: int, j: int| 0 <= i < ts.len() && 0 <= j < ts.len() && i != j implies (
    #[trigger] ts[i]).original != (#[trigger] ts[j]).original && ts[i].backup->0
        != ts[j].backup->0 by {
        let pi = joined(game_path, api_files[i]);
        let pj = joined(game_path, api_files[j]);
        assert(pi != pj) by {
            if i < j {
                assert(joined(game_path, api_files[i]) != joined(game_path, api_files[j]));
            } else {
                assert(joined(game_path, api_files[j]) != joined(game_path, api_files[i]));
            }
        }
        let bi = backup_name(file_name(pi))->0;
        let bj = backup_name(file_name(pj))->0;
        backup_is_no_binary(file_name(pi), file_name(pj));
        path_splits(pi);
        path_splits(pj);
        backup_name_is_plain(file_name(pi));
        backup_name_is_plain(file_name(pj));
        sibling_splits(pi, bi);
        sibling_splits(pj, bj);
        if sibling(pi, bi) == sibling(pj, bj) {
            assert(bi == bj);
            backup_name_is_injective(file_name(pi), file_name(pj));
            assert(pi.take(after_last(pi, '/')) == pj.take(after_last(pj, '/')));
            assert(pi == pj);
        }
    }
}

/// A path relative to a title's directory: not empty, and not beginning with `/`.
pub open spec fn is_relative(path: Seq<char>) -> bool {
    path.len() > 0 && path[0] != '/'
}

/// One of the first `k` files has the path `path`.
pub open spec fn among(entries: Seq<EntryView>, k: int, path: Seq<char>) -> bool {
    exists|m: int| 0 <= m < k && (#[trigger] entries[m]).rel_path == path
}

/// The binaries that a scan collects are paths of files it was offered, each
/// with the name of a binary that the shim can replace; where no two files
/// share a path, no two of the binaries do.
pub proof fn scan_collects_binaries(entries: Seq<EntryView>, k: int)
    requires
        0 <= k <= entries.len(),
        forall|i: int, j: int|
            0 <= i < j < entries.len() ==> (#[trigger] entries[i]).rel_path != (
            #[trigger] entries[j]).rel_path,
    ensures
        forall|i: int|
            0 <= i < scanned(entries, k).api_files.len() ==> is_shim_binary(
                file_name(#[trigger] scanned(entries, k).api_files[i]),
            ) && among(entries, k, scanned(entries, k).api_files[i]),
        forall|i: int, j: int|
            0 <= i < j < scanned(entries, k).api_files.len() ==> (#[trigger] scanned(
                entries,
                k,
            ).api_files[i]) != (#[trigger] scanned(entries, k).api_files[j]),
    decreases k,
{
    if k > 0 {
        scan_collects_binaries(entries, k - 1);
        let before = scanned(entries, k - 1).api_files;
        let now = scanned(entries, k).api_files;
        assert forall|i: int| 0 <= i < now.len() implies is_shim_binary(
            file_name(#[trigger] now[i]),
        ) && among(entries, k, now[i]) by {
            if i < before.len() {
                assert(now[i] == before[i]);
                assert(among(entries, k - 1, before[i]));
                let m = choose|m: int| 0 <= m < k - 1 && (#[trigger] entries[m]).rel_path == before[i];
                assert(0 <= m < k && entries[m].rel_path == now[i]);
            } else {
                assert(entries[k - 1].rel_path == now[i]);
            }
        }
        assert forall|i: int, j: int| 0 <= i < j < now.len() implies (#[trigger] now[i]) != (
        #[trigger] now[j]) by {
            assert(now[i] == before[i]);
            if j < before.len() {
                assert(now[j] == before[j]);
            } else {
                assert(among(entries, k - 1, before[i]));
                let m = choose|m: int| 0 <= m < k - 1 && (#[trigger] entries[m]).rel_path == before[i];
                assert(entries[m].rel_path != entries[k - 1].rel_path);
            }
        }
    }
}

/// The binaries that a scan collects from files with relative paths, no two of
/// which share a path, make targets of which no path serves two purposes.
pub proof fn scan_makes_separate_targets(game_path: Seq<char>, entries: Seq<EntryView>)
    requires
        forall|i: int| 0 <= i < entries.len() ==> is_relative((#[trigger] entries[i]).rel_path),
        forall|i: int, j: int|
            0 <= i < j < entries.len() ==> (#[trigger] entries[i]).rel_path != (
            #[trigger] entries[j]).rel_path,
    ensures
        separate(targets_of(game_path, scanned(entries, entries.len() as int).api_files)),
{
    let k = entries.len() as int;
    let api_files = scanned(entries, k).api_files;
    scan_collects_binaries(entries, k);
    assert forall|i: int| 0 <= i < api_files.len() implies is_shim_binary(
        file_name(#[trigger] joined(game_path, api_files[i])),
    ) by {
        assert(among(entries, k, api_files[i]));
        let m = choose|m: int| 0 <= m < k && (#[trigger] entries[m]).rel_path == api_files[i];
        assert(is_relative(entries[m].rel_path));
        joined_relative(game_path, api_files[i], api_files[i]);
    }
    assert forall|i: int, j: int| 0 <= i < j < api_files.len() implies (#[trigger] joined(
        game_path,
        api_files[i],
    )) != (#[trigger] joined(game_path, api_files[j])) by {
        assert(among(entries, k, api_files[i]));
        assert(among(entries, k, api_files[j]));
        let m = choose|m: int| 0 <= m < k && (#[trigger] entries[m]).rel_path == api_files[i];
        let n = choose|n: int| 0 <= n < k && (#[trigger] entries[n]).rel_path == api_files[j];
        assert(is_relative(entries[m].rel_path));
        assert(is_relative(entries[n].rel_path));
        joined_relative(game_path, api_files[i], api_files[j]);
    }
    binaries_make_separate_targets(game_path, api_files);
}

/// For a title as a scan found it, installing the api shim and then removing
/// it leaves every binary with exactly what it held before any shim was
/// installed, and leaves no backup behind. This holds where every operation
/// succeeds, every binary is on the disk, and the cache holds the shims.
pub proof fn scanned_title_is_restored(
    game_path: Seq<char>,
    entries: Seq<EntryView>,
    cached: Seq<Seq<char>>,
    disk: Disk,
)
    requires
        forall|i: int| 0 <= i < entries.len() ==> is_relative((#[trigger] entries[i]).rel_path),
        forall|i: int, j: int|
            0 <= i < j < entries.len() ==> (#[trigger] entries[i]).rel_path != (
            #[trigger] entries[j]).rel_path,
        cache_serves(
            targets_of(game_path, scanned(entries, entries.len() as int).api_files),
            cached,
            disk,
        ),
        forall|i: int|
            0 <= i < scanned(entries, entries.len() as int).api_files.len()
                ==> disk.files.contains_key(
                (#[trigger] targets_of(
                    game_path,
                    scanned(entries, entries.len() as int).api_files,
                )[i]).original,
            ),
    ensures
        ({
            let ts = targets_of(game_path, scanned(entries, entries.len() as int).api_files);
            let end = title_uninstalled(ts, title_installed(ts, cached, disk));
            forall|i: int|
                0 <= i < ts.len() ==> end.files.contains_key((#[trigger] ts[i]).original)
                    && end.files[ts[i].original] == pristine(ts[i], disk)
                    && !end.files.contains_key(ts[i].backup->0)
        }),
{
    let ts = targets_of(game_path, scanned(entries, entries.len() as int).api_files);
    scan_makes_separate_targets(game_path, entries);
    install_then_uninstall_restores(ts, cached, disk);
}

} // verus!
