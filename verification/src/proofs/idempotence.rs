//! Merging the same states into a configuration a second time changes nothing.

use vstd::prelude::*;
use crate::dlc::{
    desired, entry_body, entry_line, entry_of, finished, flushed, is_disabled, is_dlc_header,
    is_entry, is_rewritten, is_section_header, merged_lines, merged_text, passed, step, DlcView,
    Entry, Pass,
};
use crate::text::{
    first_index, first_index_unique, is_space, is_trimmed, join, lines, strip_cr, strip_leading,
    trim, trim_end, trim_start,
};

verus! {

/// An identifier that a line can carry and give back: not empty, without
/// whitespace at either end, without `=`, and not beginning with a character
/// that makes a line a remark, a header or a line switched off.
pub open spec fn is_clean_key(id: Seq<char>) -> bool {
    &&& id.len() > 0
    &&& !is_space(id[0])
    &&& !is_space(id.last())
    &&& forall|i: int| 0 <= i < id.len() ==> id[i] != '='
    &&& id[0] != '#'
    &&& id[0] != ';'
    &&& id[0] != '['
}

/// Every identifier of `dlcs` is clean and no name has whitespace at either end.
pub open spec fn is_clean(dlcs: Seq<DlcView>) -> bool {
    forall|i: int|
        0 <= i < dlcs.len() ==> is_clean_key((#[trigger] dlcs[i]).appid) && is_trimmed(
            dlcs[i].name,
        )
}

/// What is left of the line of an add-on once it is trimmed and switched on.
pub open spec fn plain_body(id: Seq<char>, name: Seq<char>) -> Seq<char> {
    if name.len() > 0 {
        id + seq![' ', '=', ' '] + name
    } else {
        id + seq![' ', '=']
    }
}

proof fn trim_start_keeps(s: Seq<char>)
    requires
        s.len() == 0 || !is_space(s[0]),
    ensures
        trim_start(s) == s,
{
}

proof fn trim_end_keeps(s: Seq<char>)
    requires
        s.len() == 0 || !is_space(s.last()),
    ensures
        trim_end(s) == s,
{
}

/// Trimming leaves a trimmed text as it is.
pub proof fn trim_keeps(s: Seq<char>)
    requires
        is_trimmed(s),
    ensures
        trim(s) == s,
{
    trim_start_keeps(s);
    trim_end_keeps(s);
}

proof fn trim_start_is_suffix(s: Seq<char>)
    ensures
        trim_start(s).len() <= s.len(),
        trim_start(s) == s.skip(s.len() - trim_start(s).len()),
        trim_start(s).len() == 0 || !is_space(trim_start(s)[0]),
    decreases s.len(),
{
    if s.len() > 0 && is_space(s[0]) {
        trim_start_is_suffix(s.drop_first());
        let t = trim_start(s.drop_first());
        assert(s.drop_first().skip(s.drop_first().len() - t.len()) == s.skip(s.len() - t.len()));
    } else {
        assert(s.skip(0) == s);
    }
}

proof fn trim_end_is_prefix(s: Seq<char>)
    ensures
        trim_end(s).len() <= s.len(),
        trim_end(s) == s.take(trim_end(s).len() as int),
        trim_end(s).len() == 0 || !is_space(trim_end(s).last()),
    decreases s.len(),
{
    if s.len() > 0 && is_space(s.last()) {
        trim_end_is_prefix(s.drop_last());
        let t = trim_end(s.drop_last());
        assert(s.drop_last().take(t.len() as int) == s.take(t.len() as int));
    } else {
        assert(s.take(s.len() as int) == s);
    }
}

/// What trimming leaves is trimmed.
pub proof fn trim_is_trimmed(s: Seq<char>)
    ensures
        is_trimmed(trim(s)),
{
    trim_start_is_suffix(s);
    let a = trim_start(s);
    trim_end_is_prefix(a);
    let b = trim_end(a);
    if b.len() > 0 {
        assert(b[0] == a[0]);
    }
}

/// The body of an add-on line gives back the identifier and the name.
proof fn plain_body_splits(id: Seq<char>, name: Seq<char>)
    requires
        is_clean_key(id),
        is_trimmed(name),
    ensures
        is_trimmed(plain_body(id, name)),
        plain_body(id, name).len() > 0,
        plain_body(id, name)[0] == id[0],
        first_index(plain_body(id, name), '=') == id.len() as int + 1,
        first_index(plain_body(id, name), '=') < plain_body(id, name).len(),
        trim(plain_body(id, name).take(id.len() as int + 1)) == id,
        trim(plain_body(id, name).skip(id.len() as int + 2)) == name,
{
    let b = plain_body(id, name);
    assert(b[0] == id[0]);
    assert(b[id.len() as int] == ' ');
    assert(b[id.len() as int + 1] == '=');
    assert forall|j: int| 0 <= j < id.len() as int + 1 implies b[j] != '=' by {
        if j < id.len() {
            assert(b[j] == id[j]);
        }
    }
    first_index_unique(b, '=', id.len() as int + 1);
    if name.len() > 0 {
        assert(b.last() == name.last());
    } else {
        assert(b.last() == '=');
    }
    let head = b.take(id.len() as int + 1);
    assert(head =~= id.push(' '));
    assert(head[0] == id[0]);
    trim_start_keeps(head);
    assert(head.last() == ' ');
    assert(head.drop_last() =~= id);
    trim_end_keeps(id);
    assert(trim_end(head) == trim_end(id));
    let tail = b.skip(id.len() as int + 2);
    if name.len() > 0 {
        assert(tail =~= seq![' '] + name);
        assert(tail[0] == ' ');
        assert(tail.drop_first() =~= name);
        trim_start_keeps(name);
        assert(trim_start(tail) == trim_start(name));
        trim_end_keeps(name);
    } else {
        assert(tail =~= name);
        trim_keeps(name);
    }
}

/// Trimming the line of an enabled add-on leaves its plain body.
proof fn enabled_line_trims(id: Seq<char>, name: Seq<char>)
    requires
        is_clean_key(id),
        is_trimmed(name),
    ensures
        trim(entry_line(true, id, name)) == plain_body(id, name),
{
    reveal_strlit(" = ");
    let line = entry_line(true, id, name);
    assert(" = "@ =~= seq![' ', '=', ' ']);
    assert(line =~= id + seq![' ', '=', ' '] + name);
    assert(line[0] == id[0]);
    trim_start_keeps(line);
    if name.len() > 0 {
        assert(line.last() == name.last());
        trim_end_keeps(line);
    } else {
        assert(line.last() == ' ');
        assert(line.drop_last() =~= id + seq![' ', '=']);
        assert(line.drop_last().last() == '=');
        trim_end_keeps(line.drop_last());
    }
}

/// Trimming the line of a disabled add-on leaves `# ` and its plain body, and
/// taking the mark away leaves the plain body.
proof fn disabled_line_trims(id: Seq<char>, name: Seq<char>)
    requires
        is_clean_key(id),
        is_trimmed(name),
    ensures
        trim(entry_line(false, id, name)) == seq!['#', ' '] + plain_body(id, name),
        trim(strip_leading(trim(entry_line(false, id, name)), '#')) == plain_body(id, name),
{
    reveal_strlit(" = ");
    reveal_strlit("# ");
    let line = entry_line(false, id, name);
    assert(" = "@ =~= seq![' ', '=', ' ']);
    assert("# "@ =~= seq!['#', ' ']);
    assert(line =~= seq!['#', ' '] + id + seq![' ', '=', ' '] + name);
    assert(line[0] == '#');
    trim_start_keeps(line);
    let t = seq!['#', ' '] + plain_body(id, name);
    if name.len() > 0 {
        assert(line.last() == name.last());
        trim_end_keeps(line);
        assert(line =~= t);
    } else {
        assert(line.last() == ' ');
        assert(line.drop_last() =~= t);
        assert(t.last() == '=');
        trim_end_keeps(t);
    }
    assert(trim(line) == t);
    plain_body_splits(id, name);
    let body = plain_body(id, name);
    assert(t[0] == '#');
    assert(t.drop_first() =~= seq![' '] + body);
    let rest = t.drop_first();
    assert(rest[0] == ' ');
    assert(strip_leading(rest, '#') == rest);
    assert(strip_leading(t, '#') == rest);
    assert(rest.drop_first() =~= body);
    trim_start_keeps(body);
    assert(trim_start(rest) == trim_start(body));
    trim_end_keeps(body);
}

/// The line of an add-on with a clean identifier and a trimmed name reads back
/// as that add-on in that state, and is neither a header nor a remark nor blank.
pub proof fn entry_line_reads_back(enabled: bool, id: Seq<char>, name: Seq<char>)
    requires
        is_clean_key(id),
        is_trimmed(name),
    ensures
        !is_dlc_header(entry_line(enabled, id, name)),
        !is_section_header(entry_line(enabled, id, name)),
        is_entry(entry_line(enabled, id, name)),
        entry_of(entry_line(enabled, id, name)) == Some(Entry { id, name }),
        is_disabled(entry_line(enabled, id, name)) == !enabled,
{
    reveal_strlit("[dlc]");
    let line = entry_line(enabled, id, name);
    let body = plain_body(id, name);
    plain_body_splits(id, name);
    if enabled {
        enabled_line_trims(id, name);
        assert(trim(line)[0] == id[0]);
        assert(entry_body(line) == body);
    } else {
        disabled_line_trims(id, name);
        assert(trim(line)[0] == '#');
        assert(entry_body(line) == body);
    }
    assert(body.take(first_index(body, '=')) == body.take(id.len() as int + 1));
    assert(body.skip(first_index(body, '=') + 1) == body.skip(id.len() as int + 2));
    assert("[dlc]"@[0] == '[');
}

/// An identifier for which `dlcs` has a state is the identifier of one of its
/// items, and the state is that of an item with this identifier.
pub proof fn desired_is_listed(dlcs: Seq<DlcView>, id: Seq<char>)
    requires
        desired(dlcs, id) is Some,
    ensures
        exists|i: int| 0 <= i < dlcs.len() && #[trigger] dlcs[i] == desired(dlcs, id)->0,
        desired(dlcs, id)->0.appid == id,
    decreases dlcs.len(),
{
    if dlcs.len() > 0 {
        if dlcs.last().appid == id {
            assert(dlcs[dlcs.len() - 1] == desired(dlcs, id)->0);
        } else {
            desired_is_listed(dlcs.drop_last(), id);
            let i = choose|i: int|
                0 <= i < dlcs.drop_last().len() && #[trigger] dlcs.drop_last()[i] == desired(
                    dlcs.drop_last(),
                    id,
                )->0;
            assert(dlcs[i] == desired(dlcs, id)->0);
        }
    }
}

/// `dlcs` has a state for the identifier of each of its items.
pub proof fn listed_is_desired(dlcs: Seq<DlcView>, i: int)
    requires
        0 <= i < dlcs.len(),
    ensures
        desired(dlcs, dlcs[i].appid) is Some,
    decreases dlcs.len(),
{
    if dlcs.last().appid != dlcs[i].appid {
        assert(i < dlcs.len() - 1);
        assert(dlcs.drop_last()[i] == dlcs[i]);
        listed_is_desired(dlcs.drop_last(), i);
    }
}

/// The line that a merge writes for the add-on `id` under the name `name` reads
/// back as that add-on: the states name the add-on, and the line, in the state
/// they ask for, is no header and is an add-on line with this identifier and
/// this name.
pub open spec fn reads_back(dlcs: Seq<DlcView>, id: Seq<char>, name: Seq<char>) -> bool {
    let line = entry_line(desired(dlcs, id)->0.enabled, id, name);
    &&& desired(dlcs, id) is Some
    &&& !is_dlc_header(line)
    &&& !is_section_header(line)
    &&& is_entry(line)
    &&& entry_of(line) == Some(Entry { id, name })
}

/// The line that would be added for each add-on of `dlcs` that is not in
/// `processed` reads back.
pub open spec fn adds_readable(dlcs: Seq<DlcView>, processed: Set<Seq<char>>) -> bool {
    forall|j: int|
        0 <= j < dlcs.len() && !processed.contains((#[trigger] dlcs[j]).appid) ==> reads_back(
            dlcs,
            dlcs[j].appid,
            desired(dlcs, dlcs[j].appid)->0.name,
        )
}

/// What the merge writes when it comes to the line with number `k` reads back:
/// the line it writes anew in place of this line, or the lines it adds before
/// this line where it ends the section.
pub open spec fn writes_readable_at(lines: Seq<Seq<char>>, dlcs: Seq<DlcView>, k: int) -> bool {
    let p = passed(lines, dlcs, Pass::start(), k);
    if is_dlc_header(lines[k]) {
        true
    } else if p.in_section && is_section_header(lines[k]) {
        adds_readable(dlcs, p.processed)
    } else if is_rewritten(p.in_section, lines[k], dlcs) {
        reads_back(dlcs, entry_of(lines[k])->0.id, entry_of(lines[k])->0.name)
    } else {
        true
    }
}

/// Every line that the merge of `dlcs` into `lines` writes reads back: each
/// line written anew in place of a line, and each line added where the section
/// ends or where the text ends in the section.
pub open spec fn writes_readable(lines: Seq<Seq<char>>, dlcs: Seq<DlcView>) -> bool {
    &&& forall|k: int| 0 <= k < lines.len() ==> #[trigger] writes_readable_at(lines, dlcs, k)
    &&& passed(lines, dlcs, Pass::start(), lines.len() as int).in_section ==> adds_readable(
        dlcs,
        passed(lines, dlcs, Pass::start(), lines.len() as int).processed,
    )
}

/// Whatever the configuration, states with clean identifiers and trimmed names
/// make the merge write only lines that read back.
pub proof fn clean_states_write_readable(lines: Seq<Seq<char>>, dlcs: Seq<DlcView>)
    requires
        is_clean(dlcs),
    ensures
        writes_readable(lines, dlcs),
{
    assert forall|processed: Set<Seq<char>>| #[trigger] adds_readable(dlcs, processed) by {
        assert forall|j: int|
            0 <= j < dlcs.len() && !processed.contains((#[trigger] dlcs[j]).appid) implies reads_back(
            dlcs,
            dlcs[j].appid,
            desired(dlcs, dlcs[j].appid)->0.name,
        ) by {
            let id = dlcs[j].appid;
            listed_is_desired(dlcs, j);
            desired_is_listed(dlcs, id);
            entry_line_reads_back(desired(dlcs, id)->0.enabled, id, desired(dlcs, id)->0.name);
        }
    }
    assert forall|k: int| 0 <= k < lines.len() implies #[trigger] writes_readable_at(
        lines,
        dlcs,
        k,
    ) by {
        let p = passed(lines, dlcs, Pass::start(), k);
        let line = lines[k];
        if !is_dlc_header(line) && !(p.in_section && is_section_header(line)) && is_rewritten(
            p.in_section,
            line,
            dlcs,
        ) {
            let id = entry_of(line)->0.id;
            let name = entry_of(line)->0.name;
            trim_is_trimmed(entry_body(line).skip(first_index(entry_body(line), '=') + 1));
            desired_is_listed(dlcs, id);
            entry_line_reads_back(desired(dlcs, id)->0.enabled, id, name);
        }
    }
}

/// The merge of the first `k` lines does not depend on the lines behind them.
proof fn passed_ignores_rest(
    a: Seq<Seq<char>>,
    b: Seq<Seq<char>>,
    dlcs: Seq<DlcView>,
    from: Pass,
    k: int,
)
    requires
        0 <= k <= a.len(),
    ensures
        passed(a + b, dlcs, from, k) == passed(a, dlcs, from, k),
    decreases k,
{
    if k > 0 {
        passed_ignores_rest(a, b, dlcs, from, k - 1);
        assert((a + b)[k - 1] == a[k - 1]);
    }
}

/// The merge of two runs of lines, one behind the other, is the merge of the
/// second begun where the merge of the first ended.
proof fn passed_in_two(
    a: Seq<Seq<char>>,
    b: Seq<Seq<char>>,
    dlcs: Seq<DlcView>,
    from: Pass,
    k: int,
)
    requires
        0 <= k <= b.len(),
    ensures
        passed(a + b, dlcs, from, a.len() + k) == passed(
            b,
            dlcs,
            passed(a, dlcs, from, a.len() as int),
            k,
        ),
    decreases k,
{
    if k > 0 {
        passed_in_two(a, b, dlcs, from, k - 1);
        assert((a + b)[a.len() + k - 1] == b[k - 1]);
    } else {
        passed_ignores_rest(a, b, dlcs, from, a.len() as int);
    }
}

/// Every identifier of the first `k` items is dealt with after the lines for
/// them were added, the identifiers dealt with before stay so, and every line
/// added is that of an add-on of `dlcs` in the state `dlcs` asks for.
proof fn flushed_covers(dlcs: Seq<DlcView>, k: int, processed: Set<Seq<char>>)
    requires
        0 <= k <= dlcs.len(),
    ensures
        processed.subset_of(flushed(dlcs, k, processed).done),
        forall|i: int| 0 <= i < k ==> flushed(dlcs, k, processed).done.contains(
            (#[trigger] dlcs[i]).appid,
        ),
    decreases k,
{
    if k > 0 {
        flushed_covers(dlcs, k - 1, processed);
        listed_is_desired(dlcs, k - 1);
    }
}

/// Where every identifier of `dlcs` is dealt with already, no line is added.
proof fn nothing_missing(dlcs: Seq<DlcView>, k: int, processed: Set<Seq<char>>)
    requires
        0 <= k <= dlcs.len(),
        forall|i: int| 0 <= i < dlcs.len() ==> processed.contains((#[trigger] dlcs[i]).appid),
    ensures
        flushed(dlcs, k, processed).lines == Seq::<Seq<char>>::empty(),
        flushed(dlcs, k, processed).done == processed,
    decreases k,
{
    if k > 0 {
        nothing_missing(dlcs, k - 1, processed);
    }
}

/// Merging the lines that were added for missing add-ons, inside the section,
/// puts them out as they are and deals with their identifiers.
proof fn added_lines_are_stable(dlcs: Seq<DlcView>, k: int, processed: Set<Seq<char>>, from: Pass)
    requires
        adds_readable(dlcs, processed),
        0 <= k <= dlcs.len(),
        from.in_section,
        processed.subset_of(from.processed),
    ensures
        ({
            let added = flushed(dlcs, k, processed);
            let end = passed(added.lines, dlcs, from, added.lines.len() as int);
            &&& end.in_section
            &&& end.out == from.out + added.lines
            &&& added.done.subset_of(end.processed)
            &&& from.processed.subset_of(end.processed)
        }),
    decreases k,
{
    let added = flushed(dlcs, k, processed);
    if k > 0 {
        added_lines_are_stable(dlcs, k - 1, processed, from);
        let before = flushed(dlcs, k - 1, processed);
        let mid = passed(before.lines, dlcs, from, before.lines.len() as int);
        let id = dlcs[k - 1].appid;
        if before.done.contains(id) || desired(dlcs, id) is None {
        } else {
            let want = desired(dlcs, id)->0;
            let line = entry_line(want.enabled, id, want.name);
            assert(added.lines == before.lines.push(line));
            flushed_covers(dlcs, k - 1, processed);
            assert(!processed.contains(dlcs[k - 1].appid));
            assert(reads_back(dlcs, id, want.name));
            assert(added.lines =~= before.lines + seq![line]);
            passed_in_two(before.lines, seq![line], dlcs, from, 1);
            assert(passed(seq![line], dlcs, mid, 1) == step(mid, line, dlcs)) by {
                reveal_with_fuel(passed, 2);
            }
            let end = step(mid, line, dlcs);
            assert(end.out == mid.out.push(line));
            assert(end.out =~= from.out + added.lines);
            assert(end.processed == mid.processed.insert(id));
        }
    } else {
        assert(from.out + added.lines =~= from.out);
    }
}

/// Merging again what a merge has put out so far puts out the same lines and
/// is in the section exactly when the first merge is; it has met every
/// identifier that the first merge has met.
proof fn second_pass_follows(lines: Seq<Seq<char>>, dlcs: Seq<DlcView>, k: int)
    requires
        forall|j: int| 0 <= j < k ==> #[trigger] writes_readable_at(lines, dlcs, j),
        0 <= k <= lines.len(),
    ensures
        ({
            let first = passed(lines, dlcs, Pass::start(), k);
            let second = passed(first.out, dlcs, Pass::start(), first.out.len() as int);
            &&& second.in_section == first.in_section
            &&& second.out == first.out
            &&& first.processed.subset_of(second.processed)
        }),
    decreases k,
{
    if k > 0 {
        second_pass_follows(lines, dlcs, k - 1);
        let before = passed(lines, dlcs, Pass::start(), k - 1);
        let echo = passed(before.out, dlcs, Pass::start(), before.out.len() as int);
        let line = lines[k - 1];
        let first = step(before, line, dlcs);
        assert(writes_readable_at(lines, dlcs, k - 1));
        if is_dlc_header(line) {
            assert(first.out =~= before.out + seq![line]);
            passed_in_two(before.out, seq![line], dlcs, Pass::start(), 1);
            assert(passed(seq![line], dlcs, echo, 1) == step(echo, line, dlcs)) by {
                reveal_with_fuel(passed, 2);
            }
        } else if before.in_section && is_section_header(line) {
            let added = flushed(dlcs, dlcs.len() as int, before.processed);
            added_lines_are_stable(dlcs, dlcs.len() as int, before.processed, echo);
            flushed_covers(dlcs, dlcs.len() as int, before.processed);
            let mid = passed(added.lines, dlcs, echo, added.lines.len() as int);
            passed_in_two(before.out, added.lines, dlcs, Pass::start(), added.lines.len() as int);
            assert(passed(
                before.out + added.lines,
                dlcs,
                Pass::start(),
                (before.out.len() + added.lines.len()) as int,
            )
                == mid);
            nothing_missing(dlcs, dlcs.len() as int, mid.processed);
            assert(first.out =~= (before.out + added.lines) + seq![line]);
            passed_in_two(before.out + added.lines, seq![line], dlcs, Pass::start(), 1);
            assert(passed(seq![line], dlcs, mid, 1) == step(mid, line, dlcs)) by {
                reveal_with_fuel(passed, 2);
            }
            let end = step(mid, line, dlcs);
            assert(end.out =~= first.out);
        } else if is_rewritten(before.in_section, line, dlcs) {
            let id = entry_of(line)->0.id;
            let name = entry_of(line)->0.name;
            let fresh = entry_line(desired(dlcs, id)->0.enabled, id, name);
            assert(reads_back(dlcs, id, name));
            assert(first.out =~= before.out + seq![fresh]);
            passed_in_two(before.out, seq![fresh], dlcs, Pass::start(), 1);
            assert(passed(seq![fresh], dlcs, echo, 1) == step(echo, fresh, dlcs)) by {
                reveal_with_fuel(passed, 2);
            }
        } else {
            assert(first.out =~= before.out + seq![line]);
            passed_in_two(before.out, seq![line], dlcs, Pass::start(), 1);
            assert(passed(seq![line], dlcs, echo, 1) == step(echo, line, dlcs)) by {
                reveal_with_fuel(passed, 2);
            }
            assert(!is_rewritten(echo.in_section, line, dlcs));
        }
    }
}

/// Merging the same states a second time changes nothing: the lines that a
/// merge leaves are left as they are by a merge of the same states. This holds
/// where every line that the first merge writes reads back as it was written;
/// states with clean identifiers and trimmed names always write such lines.
pub proof fn merge_is_idempotent(lines: Seq<Seq<char>>, dlcs: Seq<DlcView>)
    requires
        writes_readable(lines, dlcs),
    ensures
        merged_lines(merged_lines(lines, dlcs), dlcs) == merged_lines(lines, dlcs),
{
    let first = passed(lines, dlcs, Pass::start(), lines.len() as int);
    second_pass_follows(lines, dlcs, lines.len() as int);
    let echo = passed(first.out, dlcs, Pass::start(), first.out.len() as int);
    if first.in_section {
        let added = flushed(dlcs, dlcs.len() as int, first.processed);
        added_lines_are_stable(dlcs, dlcs.len() as int, first.processed, echo);
        flushed_covers(dlcs, dlcs.len() as int, first.processed);
        let end = passed(added.lines, dlcs, echo, added.lines.len() as int);
        passed_in_two(first.out, added.lines, dlcs, Pass::start(), added.lines.len() as int);
        nothing_missing(dlcs, dlcs.len() as int, end.processed);
        let once = merged_lines(lines, dlcs);
        assert(once == first.out + added.lines);
        assert(passed(once, dlcs, Pass::start(), once.len() as int) == end);
        assert(finished(end, dlcs) =~= once);
    }
}

/// Lines that come back when their text is split again: none holds a line
/// feed, none but the last ends in a carriage return, and the last is not empty.
pub open spec fn splits_back(parts: Seq<Seq<char>>) -> bool {
    parts.len() == 0 || {
        &&& forall|i: int, j: int|
            0 <= i < parts.len() && 0 <= j < parts[i].len() ==> (#[trigger] parts[i][j]) != '\n'
        &&& forall|i: int|
            0 <= i < parts.len() - 1 ==> !((#[trigger] parts[i]).len() > 0 && parts[i].last()
                == '\r')
        &&& parts.last().len() > 0
    }
}

/// The text of two or more lines is the first line, a line feed, and the text
/// of the others.
proof fn join_from_front(parts: Seq<Seq<char>>)
    requires
        parts.len() >= 2,
    ensures
        join(parts, "\n"@) == parts[0] + "\n"@ + join(parts.drop_first(), "\n"@),
    decreases parts.len(),
{
    let sep = "\n"@;
    if parts.len() == 2 {
        assert(parts.drop_last() =~= seq![parts[0]]);
        assert(parts.drop_first() =~= seq![parts[1]]);
        assert(join(parts.drop_last(), sep) == parts[0]);
        assert(join(parts.drop_first(), sep) == parts[1]);
    } else {
        join_from_front(parts.drop_last());
        assert(parts.drop_last().drop_first() =~= parts.drop_first().drop_last());
        assert(parts.drop_last()[0] == parts[0]);
        assert(parts.drop_first().last() == parts.last());
        assert(join(parts, sep) =~= parts[0] + sep + join(parts.drop_first(), sep));
    }
}

/// Lines that split back are the lines of their text.
pub proof fn lines_of_joined(parts: Seq<Seq<char>>)
    requires
        splits_back(parts),
    ensures
        lines(join(parts, "\n"@)) == parts,
    decreases parts.len(),
{
    reveal_strlit("\n");
    let sep = "\n"@;
    assert(sep =~= seq!['\n']);
    if parts.len() == 0 {
    } else if parts.len() == 1 {
        let p = parts[0];
        assert forall|j: int| 0 <= j < p.len() implies p[j] != '\n' by {
            assert(parts[0][j] != '\n');
        }
        first_index_unique(p, '\n', p.len() as int);
        assert(lines(p) =~= parts);
    } else {
        join_from_front(parts);
        let p = parts[0];
        let rest = parts.drop_first();
        let text = join(parts, sep);
        assert(text =~= p + seq!['\n'] + join(rest, sep));
        assert forall|j: int| 0 <= j < p.len() implies text[j] != '\n' by {
            assert(parts[0][j] != '\n');
            assert(text[j] == p[j]);
        }
        assert(text[p.len() as int] == '\n');
        first_index_unique(text, '\n', p.len() as int);
        assert(text.take(p.len() as int) =~= p);
        assert(text.skip(p.len() as int + 1) =~= join(rest, sep));
        assert(splits_back(rest)) by {
            assert forall|i: int, j: int|
                0 <= i < rest.len() && 0 <= j < rest[i].len() implies (#[trigger] rest[i][j])
                != '\n' by {
                assert(rest[i] == parts[i + 1]);
                assert(parts[i + 1][j] != '\n');
            }
            assert forall|i: int| 0 <= i < rest.len() - 1 implies !((#[trigger] rest[i]).len() > 0
                && rest[i].last() == '\r') by {
                assert(rest[i] == parts[i + 1]);
            }
            assert(rest.last() == parts.last());
        }
        lines_of_joined(rest);
        assert(strip_cr(p) == p);
        assert(lines(text) =~= parts);
    }
}

/// Applying the same states to a configuration twice gives the text that
/// applying them once gives. This holds where every line that the merge writes
/// reads back as it was written, and where the merged lines split back: a text
/// whose last line is blank loses that line when it is read again.
pub proof fn update_is_idempotent(contents: Seq<char>, dlcs: Seq<DlcView>)
    requires
        writes_readable(lines(contents), dlcs),
        splits_back(merged_lines(lines(contents), dlcs)),
    ensures
        merged_text(merged_text(contents, dlcs), dlcs) == merged_text(contents, dlcs),
{
    let once = merged_lines(lines(contents), dlcs);
    lines_of_joined(once);
    merge_is_idempotent(lines(contents), dlcs);
}

} // verus!
