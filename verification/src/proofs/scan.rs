//! Where the candidates of a scan come from: each from the first descriptor
//! file that names its title.

use vstd::prelude::*;
use crate::scanner::{
    descriptor_of, is_skipped_id, is_skipped_title, selected, title_path, CandidateView,
    ManifestFileView,
};

verus! {

/// The file with number `i` can be read as a descriptor and names the title `id`.
pub open spec fn names_title(files: Seq<ManifestFileView>, i: int, id: Seq<char>) -> bool {
    match descriptor_of(files[i].content) {
        Some(d) => d.0 == id,
        None => false,
    }
}

/// One of the first `k` files names the title `id`.
pub open spec fn named_before(files: Seq<ManifestFileView>, k: int, id: Seq<char>) -> bool {
    exists|i: int| 0 <= i < k && #[trigger] names_title(files, i, id)
}

/// The candidate `c` was made from the file with number `i`, and no file
/// before it names the same title.
pub open spec fn made_from_first(files: Seq<ManifestFileView>, i: int, c: CandidateView) -> bool {
    match descriptor_of(files[i].content) {
        Some(d) => {
            &&& d.0 == c.id
            &&& d.1 == c.title
            &&& c.path == title_path(files[i].steamapps_dir, d.2)
            &&& !is_skipped_id(d.0)
            &&& !is_skipped_title(d.1)
            &&& !named_before(files, i, c.id)
        },
        None => false,
    }
}

/// One of the first `k` files is the one that `c` was made from.
pub open spec fn has_origin(files: Seq<ManifestFileView>, k: int, c: CandidateView) -> bool {
    exists|i: int| 0 <= i < k && #[trigger] made_from_first(files, i, c)
}

/// The identifiers taken after `k` files are those that one of the files
/// names, tools and runtimes aside.
proof fn taken_are_named(files: Seq<ManifestFileView>, k: int)
    requires
        0 <= k <= files.len(),
    ensures
        forall|id: Seq<char>| #[trigger]
            selected(files, k).seen.contains(id) <==> !is_skipped_id(id) && named_before(
                files,
                k,
                id,
            ),
    decreases k,
{
    if k > 0 {
        taken_are_named(files, k - 1);
        let before = selected(files, k - 1);
        let now = selected(files, k);
        assert forall|id: Seq<char>| #[trigger]
            now.seen.contains(id) <==> !is_skipped_id(id) && named_before(files, k, id) by {
            if named_before(files, k, id) {
                let i = choose|i: int| 0 <= i < k && #[trigger] names_title(files, i, id);
                if i < k - 1 {
                    assert(named_before(files, k - 1, id));
                }
            }
            if named_before(files, k - 1, id) {
                let i = choose|i: int| 0 <= i < k - 1 && #[trigger] names_title(files, i, id);
                assert(0 <= i < k && names_title(files, i, id));
            }
            if names_title(files, k - 1, id) {
                assert(named_before(files, k, id));
            }
        }
    } else {
        assert forall|id: Seq<char>| !named_before(files, 0, id) by {}
    }
}

/// The first occurrence wins: every candidate of a scan was made from the first
/// descriptor file that names its title, in whichever library root that file lies.
pub proof fn first_occurrence_wins(files: Seq<ManifestFileView>, k: int)
    requires
        0 <= k <= files.len(),
    ensures
        forall|j: int|
            0 <= j < selected(files, k).admitted.len() ==> has_origin(
                files,
                k,
                #[trigger] selected(files, k).admitted[j],
            ),
    decreases k,
{
    if k > 0 {
        first_occurrence_wins(files, k - 1);
        taken_are_named(files, k - 1);
        let before = selected(files, k - 1);
        let now = selected(files, k);
        assert forall|j: int| 0 <= j < now.admitted.len() implies has_origin(
            files,
            k,
            #[trigger] now.admitted[j],
        ) by {
            if j < before.admitted.len() {
                assert(now.admitted[j] == before.admitted[j]);
                assert(has_origin(files, k - 1, before.admitted[j]));
                let i = choose|i: int|
                    0 <= i < k - 1 && #[trigger] made_from_first(files, i, before.admitted[j]);
                assert(0 <= i < k && made_from_first(files, i, now.admitted[j]));
            } else {
                let c = now.admitted[j];
                assert(!before.seen.contains(c.id));
                assert(made_from_first(files, k - 1, c));
            }
        }
    }
}

} // verus!
