//! What a merge keeps of a configuration: every line stays, in its order, and
//! only the lines of add-ons that the states name are written anew.

use vstd::prelude::*;
use crate::dlc::{
    desired, entry_line, entry_of, inside, is_dlc_header, is_rewritten, is_section_header,
    merged_lines, passed, step, DlcView, Pass,
};

verus! {

/// The merge is in the add-on section exactly when the line behind the lines
/// merged so far stands in it.
pub proof fn pass_tracks_section(lines: Seq<Seq<char>>, dlcs: Seq<DlcView>, k: int)
    requires
        0 <= k <= lines.len(),
    ensures
        passed(lines, dlcs, Pass::start(), k).in_section == inside(lines, k),
    decreases k,
{
    if k > 0 {
        pass_tracks_section(lines, dlcs, k - 1);
    }
}

/// What the merge puts out for the line with number `i`: the line itself, or,
/// if it is rewritten, the line of its add-on in the state asked for.
pub open spec fn kept(lines: Seq<Seq<char>>, dlcs: Seq<DlcView>, i: int) -> Seq<char> {
    if !is_dlc_header(lines[i]) && !(inside(lines, i) && is_section_header(lines[i]))
        && is_rewritten(inside(lines, i), lines[i], dlcs) {
        entry_line(
            desired(dlcs, entry_of(lines[i])->0.id)->0.enabled,
            entry_of(lines[i])->0.id,
            entry_of(lines[i])->0.name,
        )
    } else {
        lines[i]
    }
}

/// `places` names, for each of the first `k` lines, its place in `out`: later
/// lines have later places, and each place holds what the merge puts out for
/// its line.
pub open spec fn embeds(
    lines: Seq<Seq<char>>,
    dlcs: Seq<DlcView>,
    k: int,
    out: Seq<Seq<char>>,
    places: Seq<int>,
) -> bool {
    &&& places.len() == k
    &&& forall|i: int|
        0 <= i < k ==> 0 <= #[trigger] places[i] < out.len() && out[places[i]] == kept(
            lines,
            dlcs,
            i,
        )
    &&& forall|i: int, j: int| 0 <= i < j < k ==> #[trigger] places[i] < #[trigger] places[j]
}

/// What the merge has put out after `k` lines holds each of them, in order.
proof fn pass_keeps_lines(lines: Seq<Seq<char>>, dlcs: Seq<DlcView>, k: int)
    requires
        0 <= k <= lines.len(),
    ensures
        exists|places: Seq<int>| #[trigger]
            embeds(lines, dlcs, k, passed(lines, dlcs, Pass::start(), k).out, places),
        passed(lines, dlcs, Pass::start(), k).out.len() >= k,
    decreases k,
{
    let now = passed(lines, dlcs, Pass::start(), k);
    if k == 0 {
        assert(embeds(lines, dlcs, k, now.out, Seq::<int>::empty()));
    } else {
        pass_keeps_lines(lines, dlcs, k - 1);
        pass_tracks_section(lines, dlcs, k - 1);
        let before = passed(lines, dlcs, Pass::start(), k - 1);
        let old = choose|places: Seq<int>| #[trigger]
            embeds(lines, dlcs, k - 1, before.out, places);
        let places = old.push(now.out.len() - 1);
        assert(now == step(before, lines[k - 1], dlcs));
        assert(now.out.len() > before.out.len());
        assert(now.out.last() == kept(lines, dlcs, k - 1));
        assert forall|i: int| 0 <= i < k implies 0 <= #[trigger] places[i] < now.out.len()
            && now.out[places[i]] == kept(lines, dlcs, i) by {
            if i < k - 1 {
                assert(places[i] == old[i]);
                assert(now.out[old[i]] == before.out[old[i]]);
            }
        }
        assert forall|i: int, j: int| 0 <= i < j < k implies #[trigger] places[i]
            < #[trigger] places[j] by {
            assert(places[i] == old[i]);
            if j < k - 1 {
                assert(places[j] == old[j]);
            }
        }
        assert(embeds(lines, dlcs, k, now.out, places));
    }
}

/// A merge keeps every line of the configuration, in the order they had: each
/// line has its place in what the merge leaves, and stands there as it was
/// unless it is the line of an add-on that the states name.
pub proof fn merge_keeps_lines_in_order(lines: Seq<Seq<char>>, dlcs: Seq<DlcView>)
    ensures
        exists|places: Seq<int>| #[trigger]
            embeds(lines, dlcs, lines.len() as int, merged_lines(lines, dlcs), places),
        merged_lines(lines, dlcs).len() >= lines.len(),
{
    let n = lines.len() as int;
    pass_keeps_lines(lines, dlcs, n);
    let last = passed(lines, dlcs, Pass::start(), n);
    let places = choose|places: Seq<int>| #[trigger] embeds(lines, dlcs, n, last.out, places);
    let out = merged_lines(lines, dlcs);
    assert forall|i: int| 0 <= i < n implies 0 <= #[trigger] places[i] < out.len()
        && out[places[i]] == kept(lines, dlcs, i) by {
        assert(out[places[i]] == last.out[places[i]]);
    }
    assert(embeds(lines, dlcs, n, out, places));
}

/// A configuration without an add-on section is left as it is.
pub proof fn without_section_nothing_changes(lines: Seq<Seq<char>>, dlcs: Seq<DlcView>, k: int)
    requires
        0 <= k <= lines.len(),
        forall|i: int| 0 <= i < lines.len() ==> !is_dlc_header(#[trigger] lines[i]),
    ensures
        !passed(lines, dlcs, Pass::start(), k).in_section,
        passed(lines, dlcs, Pass::start(), k).out == lines.take(k),
        k == lines.len() ==> merged_lines(lines, dlcs) == lines,
    decreases k,
{
    if k > 0 {
        without_section_nothing_changes(lines, dlcs, k - 1);
        assert(lines.take(k) =~= lines.take(k - 1).push(lines[k - 1]));
    } else {
        assert(lines.take(0) =~= Seq::<Seq<char>>::empty());
    }
    if k == lines.len() {
        assert(lines.take(k) =~= lines);
    }
}

} // verus!
