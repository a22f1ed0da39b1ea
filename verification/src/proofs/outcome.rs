//! What a merge achieves: read again, the configuration shows every add-on
//! that the states name in the state they ask for.

use vstd::prelude::*;
use crate::dlc::{
    desired, entry_body, entry_line, entry_of, finished, flushed, in_body, inside, is_disabled,
    is_dlc_header, is_entry, is_section_header, listed, merged_lines, merged_text, missing_lines,
    passed, step, unquoted, DlcView, Pass,
};
use crate::proofs::editing::{embeds, merge_keeps_lines_in_order, pass_tracks_section};
use crate::proofs::idempotence::{
    clean_states_write_readable, desired_is_listed, entry_line_reads_back, is_clean,
    lines_of_joined, listed_is_desired, merge_is_idempotent, splits_back, trim_is_trimmed,
};
use crate::text::{first_index, lines};

verus! {

/// The add-on that the line with number `i` lists.
pub open spec fn entry_at(lines: Seq<Seq<char>>, i: int) -> DlcView {
    DlcView {
        appid: entry_of(lines[i])->0.id,
        name: unquoted(entry_of(lines[i])->0.name),
        enabled: !is_disabled(lines[i]),
    }
}

/// One of the first `k` lines is an add-on line of the section and lists `d`.
pub open spec fn lists(lines: Seq<Seq<char>>, k: int, d: DlcView) -> bool {
    exists|i: int|
        0 <= i < k && #[trigger] in_body(lines, i) && is_entry(lines[i]) && entry_at(lines, i)
            == d
}

/// Every add-on listed comes from an add-on line of the section.
pub proof fn listed_come_from_lines(lines: Seq<Seq<char>>, k: int)
    requires
        0 <= k <= lines.len(),
    ensures
        forall|j: int|
            0 <= j < listed(lines, k).len() ==> lists(lines, k, #[trigger] listed(lines, k)[j]),
    decreases k,
{
    if k > 0 {
        listed_come_from_lines(lines, k - 1);
        let before = listed(lines, k - 1);
        let now = listed(lines, k);
        assert forall|j: int| 0 <= j < now.len() implies lists(lines, k, #[trigger] now[j]) by {
            if j < before.len() {
                assert(now[j] == before[j]);
                assert(lists(lines, k - 1, before[j]));
                let i = choose|i: int|
                    0 <= i < k - 1 && #[trigger] in_body(lines, i) && is_entry(lines[i])
                        && entry_at(lines, i) == before[j];
                assert(0 <= i < k && in_body(lines, i) && is_entry(lines[i]) && entry_at(lines, i)
                    == now[j]);
            } else {
                assert(in_body(lines, k - 1) && is_entry(lines[k - 1]) && entry_at(lines, k - 1)
                    == now[j]);
            }
        }
    }
}

/// What a merge has put out grows with every line: by one line at least, and
/// what was put out before stays in front.
proof fn pass_grows(lines: Seq<Seq<char>>, dlcs: Seq<DlcView>, k: int, m: int)
    requires
        0 <= k <= m <= lines.len(),
    ensures
        passed(lines, dlcs, Pass::start(), m).out.len() - passed(
            lines,
            dlcs,
            Pass::start(),
            k,
        ).out.len() >= m - k,
        passed(lines, dlcs, Pass::start(), k).out == passed(lines, dlcs, Pass::start(), m).out.take(
            passed(lines, dlcs, Pass::start(), k).out.len() as int,
        ),
    decreases m - k,
{
    let a = passed(lines, dlcs, Pass::start(), k).out;
    if k < m {
        pass_grows(lines, dlcs, k, m - 1);
        let b = passed(lines, dlcs, Pass::start(), m - 1).out;
        let c = passed(lines, dlcs, Pass::start(), m).out;
        assert(c.len() > b.len());
        assert(b =~= c.take(b.len() as int));
        assert(a =~= c.take(a.len() as int));
    } else {
        assert(a =~= a.take(a.len() as int));
    }
}

/// Merged into lines that a merge of the same states has left, the states
/// change no line and add none: line by line, what is put out is what is read.
proof fn second_pass_is_line_by_line(out: Seq<Seq<char>>, dlcs: Seq<DlcView>, k: int)
    requires
        merged_lines(out, dlcs) == out,
        0 <= k <= out.len(),
    ensures
        passed(out, dlcs, Pass::start(), k).out == out.take(k),
{
    let n = out.len() as int;
    let last = passed(out, dlcs, Pass::start(), n);
    pass_grows(out, dlcs, 0, n);
    assert(finished(last, dlcs).len() >= last.out.len());
    assert(last.out.len() == n);
    assert(last.out =~= finished(last, dlcs).take(n));
    assert(out.take(n) =~= out);
    pass_grows(out, dlcs, k, n);
    pass_grows(out, dlcs, 0, k);
    let here = passed(out, dlcs, Pass::start(), k).out;
    assert(here.len() == k);
    assert(here =~= out.take(k));
}

/// In what a merge has left, the line of an add-on that the states name shows
/// the add-on in the state they ask for.
pub proof fn merged_line_shows_desired_state(lines: Seq<Seq<char>>, dlcs: Seq<DlcView>, i: int)
    requires
        is_clean(dlcs),
        0 <= i < merged_lines(lines, dlcs).len(),
        in_body(merged_lines(lines, dlcs), i),
        is_entry(merged_lines(lines, dlcs)[i]),
        desired(dlcs, entry_of(merged_lines(lines, dlcs)[i])->0.id) is Some,
    ensures
        !is_disabled(merged_lines(lines, dlcs)[i]) == desired(
            dlcs,
            entry_of(merged_lines(lines, dlcs)[i])->0.id,
        )->0.enabled,
{
    let out = merged_lines(lines, dlcs);
    clean_states_write_readable(lines, dlcs);
    merge_is_idempotent(lines, dlcs);
    second_pass_is_line_by_line(out, dlcs, i);
    second_pass_is_line_by_line(out, dlcs, i + 1);
    pass_tracks_section(out, dlcs, i);
    let before = passed(out, dlcs, Pass::start(), i);
    let after = passed(out, dlcs, Pass::start(), i + 1);
    let line = out[i];
    assert(after == step(before, line, dlcs));
    let id = entry_of(line)->0.id;
    let name = entry_of(line)->0.name;
    let fresh = entry_line(desired(dlcs, id)->0.enabled, id, name);
    assert(after.out == before.out.push(fresh));
    assert(out.take(i + 1).last() == line);
    assert(fresh == line);
    desired_is_listed(dlcs, id);
    trim_is_trimmed(entry_body(line).skip(first_index(entry_body(line), '=') + 1));
    entry_line_reads_back(desired(dlcs, id)->0.enabled, id, name);
}

/// After a merge, every add-on that the configuration lists and the states
/// name is listed in the state that the states ask for. This holds for states
/// whose identifiers are clean and whose names are trimmed.
pub proof fn merge_achieves_desired_states(lines: Seq<Seq<char>>, dlcs: Seq<DlcView>)
    requires
        is_clean(dlcs),
    ensures
        ({
            let out = merged_lines(lines, dlcs);
            let shown = listed(out, out.len() as int);
            forall|j: int|
                0 <= j < shown.len() && desired(dlcs, (#[trigger] shown[j]).appid) is Some
                    ==> shown[j].enabled == desired(dlcs, shown[j].appid)->0.enabled
        }),
{
    let out = merged_lines(lines, dlcs);
    let shown = listed(out, out.len() as int);
    listed_come_from_lines(out, out.len() as int);
    assert forall|j: int|
        0 <= j < shown.len() && desired(dlcs, (#[trigger] shown[j]).appid) is Some implies shown[j].enabled
        == desired(dlcs, shown[j].appid)->0.enabled by {
        assert(lists(out, out.len() as int, shown[j]));
        let i = choose|i: int|
            0 <= i < out.len() && #[trigger] in_body(out, i) && is_entry(out[i]) && entry_at(out, i)
                == shown[j];
        merged_line_shows_desired_state(lines, dlcs, i);
    }
}

/// One of the first `k` lines is an add-on line of the section for the add-on `id`.
pub open spec fn names(lines: Seq<Seq<char>>, k: int, id: Seq<char>) -> bool {
    exists|i: int|
        0 <= i < k && #[trigger] in_body(lines, i) && is_entry(lines[i]) && entry_of(
            lines[i],
        )->0.id == id
}

/// Every add-on line of the section is listed.
pub proof fn lines_are_listed(lines: Seq<Seq<char>>, k: int, i: int)
    requires
        0 <= i < k <= lines.len(),
        in_body(lines, i),
        is_entry(lines[i]),
    ensures
        exists|j: int|
            0 <= j < listed(lines, k).len() && #[trigger] listed(lines, k)[j] == entry_at(lines, i),
    decreases k,
{
    if i == k - 1 {
        let j = listed(lines, k).len() - 1;
        assert(listed(lines, k)[j] == entry_at(lines, i));
    } else {
        lines_are_listed(lines, k - 1, i);
        let j = choose|j: int|
            0 <= j < listed(lines, k - 1).len() && #[trigger] listed(lines, k - 1)[j] == entry_at(
                lines,
                i,
            );
        assert(listed(lines, k)[j] == entry_at(lines, i));
    }
}

/// Every identifier that a merge has met belongs to an add-on line of the
/// section among the lines merged.
proof fn met_are_named(lines: Seq<Seq<char>>, dlcs: Seq<DlcView>, k: int)
    requires
        0 <= k <= lines.len(),
    ensures
        forall|id: Seq<char>| #[trigger]
            passed(lines, dlcs, Pass::start(), k).processed.contains(id) ==> names(lines, k, id),
    decreases k,
{
    if k > 0 {
        met_are_named(lines, dlcs, k - 1);
        pass_tracks_section(lines, dlcs, k - 1);
        let before = passed(lines, dlcs, Pass::start(), k - 1);
        let now = passed(lines, dlcs, Pass::start(), k);
        assert forall|id: Seq<char>| #[trigger] now.processed.contains(id) implies names(
            lines,
            k,
            id,
        ) by {
            if before.processed.contains(id) {
                assert(names(lines, k - 1, id));
                let i = choose|i: int|
                    0 <= i < k - 1 && #[trigger] in_body(lines, i) && is_entry(lines[i])
                        && entry_of(lines[i])->0.id == id;
                assert(0 <= i < k && in_body(lines, i) && is_entry(lines[i]) && entry_of(
                    lines[i],
                )->0.id == id);
            } else {
                assert(in_body(lines, k - 1) && is_entry(lines[k - 1]) && entry_of(
                    lines[k - 1],
                )->0.id == id);
            }
        }
    }
}

/// Where no line is to be added, every add-on of the states was met.
proof fn none_missing_all_met(dlcs: Seq<DlcView>, k: int, processed: Set<Seq<char>>)
    requires
        0 <= k <= dlcs.len(),
        flushed(dlcs, k, processed).lines.len() == 0,
    ensures
        flushed(dlcs, k, processed).done == processed,
        forall|i: int| 0 <= i < k ==> processed.contains((#[trigger] dlcs[i]).appid),
    decreases k,
{
    if k > 0 {
        listed_is_desired(dlcs, k - 1);
        none_missing_all_met(dlcs, k - 1, processed);
    }
}

/// Behind a line that opens the add-on section, the section ends with a header
/// further down, or the text ends in it.
proof fn section_ends(lines: Seq<Seq<char>>, from: int, k: int)
    requires
        0 <= from <= k <= lines.len(),
        inside(lines, from),
    ensures
        inside(lines, k) || exists|q: int|
            from <= q < k && #[trigger] inside(lines, q) && is_section_header(lines[q])
                && !is_dlc_header(lines[q]),
    decreases k - from,
{
    if from < k {
        section_ends(lines, from, k - 1);
        if inside(lines, k - 1) && !inside(lines, k) {
            assert(inside(lines, k - 1) && is_section_header(lines[k - 1]) && !is_dlc_header(
                lines[k - 1],
            ));
        }
    }
}

/// After a merge into a configuration that has an add-on section, the
/// configuration lists every add-on that the states name. This holds for states
/// whose identifiers are clean and whose names are trimmed.
pub proof fn merge_lists_every_desired(lines: Seq<Seq<char>>, dlcs: Seq<DlcView>, h: int, k: int)
    requires
        is_clean(dlcs),
        0 <= h < lines.len(),
        is_dlc_header(lines[h]),
        0 <= k < dlcs.len(),
    ensures
        ({
            let out = merged_lines(lines, dlcs);
            exists|j: int|
                0 <= j < listed(out, out.len() as int).len() && (#[trigger] listed(
                    out,
                    out.len() as int,
                )[j]).appid == dlcs[k].appid
        }),
{
    let out = merged_lines(lines, dlcs);
    let n = out.len() as int;
    let id = dlcs[k].appid;
    clean_states_write_readable(lines, dlcs);
    merge_is_idempotent(lines, dlcs);
    merge_keeps_lines_in_order(lines, dlcs);
    let places = choose|places: Seq<int>| #[trigger]
        embeds(lines, dlcs, lines.len() as int, out, places);
    let g = places[h];
    assert(out[g] == lines[h]);
    assert(inside(out, g + 1));
    section_ends(out, g + 1, n);
    // the point at which the second merge would add what is missing
    let q = if inside(out, n) {
        n
    } else {
        choose|q: int|
            g + 1 <= q < n && #[trigger] inside(out, q) && is_section_header(out[q])
                && !is_dlc_header(out[q])
    };
    let at = passed(out, dlcs, Pass::start(), q);
    pass_tracks_section(out, dlcs, q);
    second_pass_is_line_by_line(out, dlcs, q);
    assert(missing_lines(dlcs, at.processed).len() == 0) by {
        if q == n {
            second_pass_is_line_by_line(out, dlcs, n);
            assert(out.take(n) =~= out);
            assert(finished(at, dlcs) == out);
            assert(at.out + missing_lines(dlcs, at.processed) == at.out);
            assert((at.out + missing_lines(dlcs, at.processed)).len() == at.out.len());
        } else {
            second_pass_is_line_by_line(out, dlcs, q + 1);
            let next = passed(out, dlcs, Pass::start(), q + 1);
            assert(next == step(at, out[q], dlcs));
            assert(next.out.len() == q + 1);
            assert(at.out.len() == q);
        }
    }
    none_missing_all_met(dlcs, dlcs.len() as int, at.processed);
    assert(at.processed.contains(id));
    met_are_named(out, dlcs, q);
    assert(names(out, q, id));
    let i = choose|i: int|
        0 <= i < q && #[trigger] in_body(out, i) && is_entry(out[i]) && entry_of(out[i])->0.id
            == id;
    lines_are_listed(out, n, i);
    let j = choose|j: int|
        0 <= j < listed(out, n).len() && #[trigger] listed(out, n)[j] == entry_at(out, i);
    assert(listed(out, n)[j].appid == id);
}

/// Read again after an update, a configuration shows every add-on that it
/// lists and the states name in the state that the states ask for. This holds
/// for states whose identifiers are clean and whose names are trimmed, where
/// the merged lines split back.
pub proof fn update_shows_desired_states(contents: Seq<char>, dlcs: Seq<DlcView>)
    requires
        is_clean(dlcs),
        splits_back(merged_lines(lines(contents), dlcs)),
    ensures
        ({
            let updated = lines(merged_text(contents, dlcs));
            let shown = listed(updated, updated.len() as int);
            forall|j: int|
                0 <= j < shown.len() && desired(dlcs, (#[trigger] shown[j]).appid) is Some
                    ==> shown[j].enabled == desired(dlcs, shown[j].appid)->0.enabled
        }),
{
    lines_of_joined(merged_lines(lines(contents), dlcs));
    merge_achieves_desired_states(lines(contents), dlcs);
}

} // verus!
