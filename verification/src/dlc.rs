//! The add-on configuration of the content unlocker: a line-oriented text with
//! bracketed section headers, whose `[dlc]` section lists one add-on per line.

use vstd::prelude::*;
use crate::installer::{ErrorKind, InstallerError};
use crate::paths::{join_path, joined};
use crate::stored::Stored;
use crate::text::{
    chars_of, find_first, first_index, first_index_bounds, join, join_with, lines, push_all,
    push_str, same_text, slice_of, split_lines, string_of, strip_leading, strip_trailing, text_is,
    texts, trim, trimmed, without_leading, without_trailing,
};

verus! {

/// An add-on with its place in the selection.
#[derive(Debug, Clone)]
pub struct DlcInfoWithState {
    pub appid: String,
    pub name: String,
    pub enabled: bool,
}

/// An add-on: its identifier and its display name.
#[derive(Debug, Clone)]
pub struct DlcInfo {
    pub appid: String,
    pub name: String,
}

/// An add-on with its state, as plain values.
pub struct DlcView {
    pub appid: Seq<char>,
    pub name: Seq<char>,
    pub enabled: bool,
}

impl View for DlcInfoWithState {
    type V = DlcView;

    open spec fn view(&self) -> DlcView {
        DlcView { appid: self.appid@, name: self.name@, enabled: self.enabled }
    }
}

impl View for DlcInfo {
    type V = DlcView;

    open spec fn view(&self) -> DlcView {
        DlcView { appid: self.appid@, name: self.name@, enabled: true }
    }
}

/// The add-ons of `v` as plain values.
pub open spec fn dlc_views(v: Seq<DlcInfo>) -> Seq<DlcView> {
    Seq::new(v.len(), |i: int| v[i]@)
}

/// The add-ons of `v`, with their states, as plain values.
pub open spec fn state_views(v: Seq<DlcInfoWithState>) -> Seq<DlcView> {
    Seq::new(v.len(), |i: int| v[i]@)
}

/// Those of the first `k` add-ons of `selected` that are enabled, in order.
pub open spec fn enabled_among(selected: Seq<DlcView>, k: int) -> Seq<DlcView>
    decreases k,
{
    if k <= 0 {
        Seq::empty()
    } else if selected[k - 1].enabled {
        enabled_among(selected, k - 1).push(selected[k - 1])
    } else {
        enabled_among(selected, k - 1)
    }
}

/// The enabled add-ons of a selection, in order.
pub fn enabled_dlcs(selected: &Vec<DlcInfoWithState>) -> (out: Vec<DlcInfo>)
    ensures
        dlc_views(out@) == enabled_among(state_views(selected@), selected@.len() as int),
{
    let mut out: Vec<DlcInfo> = Vec::new();
    let mut k: usize = 0;
    assert(dlc_views(out@) =~= Seq::<DlcView>::empty());
    while k < selected.len()
        invariant
            k <= selected.len(),
            dlc_views(out@) == enabled_among(state_views(selected@), k as int),
        decreases selected.len() - k,
    {
        if selected[k].enabled {
            let ghost before = dlc_views(out@);
            let d = DlcInfo { appid: selected[k].appid.clone(), name: selected[k].name.clone() };
            out.push(d);
            assert(dlc_views(out@) =~= before.push(selected[k as int]@));
        }
        k += 1;
    }
    out
}

/// The add-ons of `dlcs` as a selection in which each is enabled.
pub fn with_states(dlcs: &Vec<DlcInfo>) -> (out: Vec<DlcInfoWithState>)
    ensures
        state_views(out@) == dlc_views(dlcs@),
{
    let mut out: Vec<DlcInfoWithState> = Vec::new();
    let mut k: usize = 0;
    while k < dlcs.len()
        invariant
            k <= dlcs.len(),
            state_views(out@) == dlc_views(dlcs@).take(k as int),
        decreases dlcs.len() - k,
    {
        let ghost before = state_views(out@);
        let d = DlcInfoWithState {
            appid: dlcs[k].appid.clone(),
            name: dlcs[k].name.clone(),
            enabled: true,
        };
        out.push(d);
        assert(state_views(out@) =~= before.push(dlcs[k as int]@));
        k += 1;
        assert(dlc_views(dlcs@).take(k as int) =~= before.push(dlcs[k - 1]@));
    }
    assert(dlc_views(dlcs@).take(dlcs.len() as int) == dlc_views(dlcs@));
    out
}

/// The line of an add-on: identifier, ` = `, name; behind `# ` when it is disabled.
pub open spec fn entry_line(enabled: bool, appid: Seq<char>, name: Seq<char>) -> Seq<char> {
    if enabled {
        appid + " = "@ + name
    } else {
        "# "@ + appid + " = "@ + name
    }
}

/// The part of a fresh configuration that stands before the add-on lines.
pub open spec fn ini_head(app_id: Seq<char>) -> Seq<char> {
    "APPID = "@ + app_id + "\n[config]\n"@ + "issubscribedapp_on_false_use_real = true\n"@
        + "[methods]\n"@ + "disable_steamapps_issubscribedapp = false\n"@ + "[dlc]\n"@
}

/// One enabled line, ended by a line feed, for each add-on of `dlcs`.
pub open spec fn ini_entries(dlcs: Seq<DlcView>) -> Seq<char>
    decreases dlcs.len(),
{
    if dlcs.len() == 0 {
        Seq::empty()
    } else {
        ini_entries(dlcs.drop_last()) + entry_line(true, dlcs.last().appid, dlcs.last().name)
            + "\n"@
    }
}

/// A fresh configuration for the title `app_id` that enables every add-on of `dlcs`.
pub open spec fn cream_api_ini(app_id: Seq<char>, dlcs: Seq<DlcView>) -> Seq<char> {
    ini_head(app_id) + ini_entries(dlcs)
}

/// Appends the line of an add-on, without a line ending, to `out`.
pub fn push_entry_line(out: &mut Vec<char>, enabled: bool, appid: &Vec<char>, name: &Vec<char>)
    ensures
        final(out)@ == old(out)@ + entry_line(enabled, appid@, name@),
{
    let mut line: Vec<char> = Vec::new();
    if !enabled {
        push_str(&mut line, "# ");
    }
    crate::text::push_all(&mut line, appid);
    push_str(&mut line, " = ");
    crate::text::push_all(&mut line, name);
    assert(line@ == entry_line(enabled, appid@, name@));
    crate::text::push_all(out, &line);
}

/// A fresh configuration for the title `app_id` that enables every add-on of `dlcs`.
pub fn write_cream_api_ini(app_id: &str, dlcs: &Vec<DlcInfo>) -> (config: String)
    ensures
        config@ == cream_api_ini(app_id@, dlc_views(dlcs@)),
{
    let mut out: Vec<char> = Vec::new();
    push_str(&mut out, "APPID = ");
    push_str(&mut out, app_id);
    push_str(&mut out, "\n[config]\n");
    push_str(&mut out, "issubscribedapp_on_false_use_real = true\n");
    push_str(&mut out, "[methods]\n");
    push_str(&mut out, "disable_steamapps_issubscribedapp = false\n");
    push_str(&mut out, "[dlc]\n");
    assert(out@ == ini_head(app_id@));
    let mut i: usize = 0;
    while i < dlcs.len()
        invariant
            i <= dlcs.len(),
            out@ == ini_head(app_id@) + ini_entries(dlc_views(dlcs@).take(i as int)),
        decreases dlcs.len() - i,
    {
        let appid = chars_of(dlcs[i].appid.as_str());
        let name = chars_of(dlcs[i].name.as_str());
        push_entry_line(&mut out, true, &appid, &name);
        push_str(&mut out, "\n");
        proof {
            let done = dlc_views(dlcs@).take(i + 1);
            assert(done.drop_last() == dlc_views(dlcs@).take(i as int));
            assert(done.last() == dlcs[i as int]@);
        }
        i += 1;
    }
    assert(dlc_views(dlcs@).take(dlcs.len() as int) == dlc_views(dlcs@));
    string_of(&out)
}

/// The line opens the add-on section.
pub open spec fn is_dlc_header(line: Seq<char>) -> bool {
    trim(line) == "[dlc]"@
}

/// The line is a section header: a bracket at either end, whitespace aside.
pub open spec fn is_section_header(line: Seq<char>) -> bool {
    trim(line).len() > 0 && trim(line)[0] == '[' && trim(line).last() == ']'
}

/// The line holds nothing but whitespace.
pub open spec fn is_blank(line: Seq<char>) -> bool {
    trim(line).len() == 0
}

/// The line is a remark: it begins with `;`, whitespace aside.
pub open spec fn is_remark(line: Seq<char>) -> bool {
    trim(line).len() > 0 && trim(line)[0] == ';'
}

/// The line is switched off: it begins with `#`, whitespace aside.
pub open spec fn is_disabled(line: Seq<char>) -> bool {
    trim(line).len() > 0 && trim(line)[0] == '#'
}

/// What the line says once whitespace and the marks that switch it off are
/// taken away.
pub open spec fn entry_body(line: Seq<char>) -> Seq<char> {
    if is_disabled(line) {
        trim(strip_leading(trim(line), '#'))
    } else {
        trim(line)
    }
}

/// An add-on as a line names it.
pub struct Entry {
    pub id: Seq<char>,
    pub name: Seq<char>,
}

/// The add-on that the line names: what stands before its first `=` as the
/// identifier and what stands behind it as the name, each without whitespace
/// around it. A line without `=` names none.
pub open spec fn entry_of(line: Seq<char>) -> Option<Entry> {
    let body = entry_body(line);
    let i = first_index(body, '=');
    if 0 <= i < body.len() {
        Some(Entry { id: trim(body.take(i)), name: trim(body.skip(i + 1)) })
    } else {
        None
    }
}

/// The line is an add-on line: neither blank nor a remark, and it names an add-on.
pub open spec fn is_entry(line: Seq<char>) -> bool {
    !is_blank(line) && !is_remark(line) && entry_of(line) is Some
}

/// Whether the line behind the first `k` lines stands in the add-on section.
/// The section begins behind a line that opens it and ends with the next
/// section header.
pub open spec fn inside(lines: Seq<Seq<char>>, k: int) -> bool
    decreases k,
{
    if k <= 0 || k > lines.len() {
        false
    } else if is_dlc_header(lines[k - 1]) {
        true
    } else if inside(lines, k - 1) && is_section_header(lines[k - 1]) {
        false
    } else {
        inside(lines, k - 1)
    }
}

/// The line with number `i` is a line of the add-on section other than a header.
pub open spec fn in_body(lines: Seq<Seq<char>>, i: int) -> bool {
    0 <= i < lines.len() && inside(lines, i) && !is_dlc_header(lines[i]) && !is_section_header(
        lines[i],
    )
}

/// The name as it is shown: without the quotation marks around it.
pub open spec fn unquoted(name: Seq<char>) -> Seq<char> {
    strip_trailing(strip_leading(name, '"'), '"')
}

/// The add-ons that the first `k` lines list, in order, each with its state.
pub open spec fn listed(lines: Seq<Seq<char>>, k: int) -> Seq<DlcView>
    decreases k,
{
    if k <= 0 {
        Seq::empty()
    } else if in_body(lines, k - 1) && is_entry(lines[k - 1]) {
        listed(lines, k - 1).push(
            DlcView {
                appid: entry_of(lines[k - 1])->0.id,
                name: unquoted(entry_of(lines[k - 1])->0.name),
                enabled: !is_disabled(lines[k - 1]),
            },
        )
    } else {
        listed(lines, k - 1)
    }
}

/// What stands before the first `=` of the line, or the whole line if it has
/// none, without whitespace around it.
pub open spec fn leading_key(line: Seq<char>) -> Seq<char> {
    trim(trim(line).take(first_index(trim(line), '=')))
}

/// The identifiers of the enabled add-ons that the first `k` lines list: of
/// each line of the section that is neither blank nor a remark, what stands
/// before its first `=`, unless that begins with `#`.
pub open spec fn enabled_ids(lines: Seq<Seq<char>>, k: int) -> Seq<Seq<char>>
    decreases k,
{
    if k <= 0 {
        Seq::empty()
    } else if in_body(lines, k - 1) && !is_blank(lines[k - 1]) && !is_remark(lines[k - 1]) && !(
    leading_key(lines[k - 1]).len() > 0 && leading_key(lines[k - 1])[0] == '#') {
        enabled_ids(lines, k - 1).push(leading_key(lines[k - 1]))
    } else {
        enabled_ids(lines, k - 1)
    }
}

/// The state that `dlcs` asks for the add-on `id`: that of the last item with
/// this identifier.
pub open spec fn desired(dlcs: Seq<DlcView>, id: Seq<char>) -> Option<DlcView>
    decreases dlcs.len(),
{
    if dlcs.len() == 0 {
        None
    } else if dlcs.last().appid == id {
        Some(dlcs.last())
    } else {
        desired(dlcs.drop_last(), id)
    }
}

/// The lines to add for the first `k` items of `dlcs`, and the identifiers
/// that are dealt with after them.
pub struct Flush {
    pub lines: Seq<Seq<char>>,
    pub done: Set<Seq<char>>,
}

/// One line for each identifier among the first `k` items of `dlcs` that is not
/// in `processed`, in the order in which the identifiers first occur, each in
/// the state that `dlcs` asks for it.
pub open spec fn flushed(dlcs: Seq<DlcView>, k: int, processed: Set<Seq<char>>) -> Flush
    decreases k,
{
    if k <= 0 {
        Flush { lines: Seq::empty(), done: processed }
    } else {
        let before = flushed(dlcs, k - 1, processed);
        let id = dlcs[k - 1].appid;
        if before.done.contains(id) || desired(dlcs, id) is None {
            before
        } else {
            Flush {
                lines: before.lines.push(
                    entry_line(desired(dlcs, id)->0.enabled, id, desired(dlcs, id)->0.name),
                ),
                done: before.done.insert(id),
            }
        }
    }
}

/// The lines to add for the add-ons of `dlcs` that the section did not list.
pub open spec fn missing_lines(dlcs: Seq<DlcView>, processed: Set<Seq<char>>) -> Seq<Seq<char>> {
    flushed(dlcs, dlcs.len() as int, processed).lines
}

/// Where a merge stands: whether it is in the add-on section, which
/// identifiers it has met there, and the lines it has put out.
pub struct Pass {
    pub in_section: bool,
    pub processed: Set<Seq<char>>,
    pub out: Seq<Seq<char>>,
}

impl Pass {
    /// Before the first line.
    pub open spec fn start() -> Pass {
        Pass { in_section: false, processed: Set::empty(), out: Seq::empty() }
    }
}

/// The line is rewritten: it is an add-on line in the section, and `dlcs` has a
/// state for its add-on.
pub open spec fn is_rewritten(in_section: bool, line: Seq<char>, dlcs: Seq<DlcView>) -> bool {
    in_section && is_entry(line) && desired(dlcs, entry_of(line)->0.id) is Some
}

/// The merge after one more line. The line that opens the add-on section is
/// kept. The header that ends the section is kept behind the lines for the
/// add-ons that the section did not list. An add-on line of the section whose
/// add-on `dlcs` has a state for is written anew in that state, with the name
/// it had. Every other line is kept as it is.
pub open spec fn step(p: Pass, line: Seq<char>, dlcs: Seq<DlcView>) -> Pass {
    if is_dlc_header(line) {
        Pass { in_section: true, processed: p.processed, out: p.out.push(line) }
    } else if p.in_section && is_section_header(line) {
        Pass {
            in_section: false,
            processed: p.processed,
            out: (p.out + missing_lines(dlcs, p.processed)).push(line),
        }
    } else if is_rewritten(p.in_section, line, dlcs) {
        let id = entry_of(line)->0.id;
        Pass {
            in_section: p.in_section,
            processed: p.processed.insert(id),
            out: p.out.push(entry_line(desired(dlcs, id)->0.enabled, id, entry_of(line)->0.name)),
        }
    } else {
        Pass { in_section: p.in_section, processed: p.processed, out: p.out.push(line) }
    }
}

/// The merge after the first `k` of `lines`, begun at `from`.
pub open spec fn passed(lines: Seq<Seq<char>>, dlcs: Seq<DlcView>, from: Pass, k: int) -> Pass
    decreases k,
{
    if k <= 0 {
        from
    } else {
        step(passed(lines, dlcs, from, k - 1), lines[k - 1], dlcs)
    }
}

/// The lines that a merge leaves: what it has put out, and, where the text
/// ends inside the add-on section, the lines for the add-ons that the section
/// did not list.
pub open spec fn finished(p: Pass, dlcs: Seq<DlcView>) -> Seq<Seq<char>> {
    if p.in_section {
        p.out + missing_lines(dlcs, p.processed)
    } else {
        p.out
    }
}

/// The lines of a configuration after the states of `dlcs` were merged into it.
pub open spec fn merged_lines(lines: Seq<Seq<char>>, dlcs: Seq<DlcView>) -> Seq<Seq<char>> {
    finished(passed(lines, dlcs, Pass::start(), lines.len() as int), dlcs)
}

/// The configuration `contents` after the states of `dlcs` were merged into
/// it: its lines merged, with a line feed between each two.
pub open spec fn merged_text(contents: Seq<char>, dlcs: Seq<DlcView>) -> Seq<char> {
    join(merged_lines(lines(contents), dlcs), "\n"@)
}

/// What one line is, for the merge and for the listings.
pub struct LineKind {
    pub dlc_header: bool,
    pub section_header: bool,
    pub blank: bool,
    pub remark: bool,
    pub disabled: bool,
    pub entry: Option<(Vec<char>, Vec<char>)>,
    pub key: Vec<char>,
}

/// Looks at one line.
pub fn classify_line(line: &Vec<char>) -> (k: LineKind)
    ensures
        k.dlc_header == is_dlc_header(line@),
        k.section_header == is_section_header(line@),
        k.blank == is_blank(line@),
        k.remark == is_remark(line@),
        k.disabled == is_disabled(line@),
        match k.entry {
            Some(e) => entry_of(line@) == Some(Entry { id: e.0@, name: e.1@ }),
            None => entry_of(line@) is None,
        },
        k.key@ == leading_key(line@),
{
    let t = trimmed(line);
    let dlc_header = text_is(&t, "[dlc]");
    let section_header = t.len() > 0 && t[0] == '[' && t[t.len() - 1] == ']';
    let blank = t.len() == 0;
    let remark = t.len() > 0 && t[0] == ';';
    let disabled = t.len() > 0 && t[0] == '#';
    let body = if disabled {
        trimmed(&without_leading(&t, '#'))
    } else {
        trimmed(line)
    };
    let i = find_first(&body, '=');
    proof {
        first_index_bounds(body@, '=');
        first_index_bounds(t@, '=');
    }
    let entry = if i < body.len() {
        assert(body@.take(i as int) == body@.subrange(0, i as int));
        assert(body@.skip(i + 1) == body@.subrange(i + 1, body.len() as int));
        Some((trimmed(&slice_of(&body, 0, i)), trimmed(&slice_of(&body, i + 1, body.len()))))
    } else {
        None
    };
    let j = find_first(&t, '=');
    assert(t@.take(j as int) == t@.subrange(0, j as int));
    let key = trimmed(&slice_of(&t, 0, j));
    LineKind { dlc_header, section_header, blank, remark, disabled, entry, key }
}

/// The add-ons that the configuration `contents` lists, enabled or not, in order.
pub fn get_all_dlcs(contents: &str) -> (out: Vec<DlcInfoWithState>)
    ensures
        state_views(out@) == listed(lines(contents@), lines(contents@).len() as int),
{
    let all = split_lines(&chars_of(contents));
    let mut out: Vec<DlcInfoWithState> = Vec::new();
    let mut in_section = false;
    let mut k: usize = 0;
    assert(state_views(out@) =~= Seq::<DlcView>::empty());
    while k < all.len()
        invariant
            k <= all.len(),
            texts(all@) == lines(contents@),
            in_section == inside(texts(all@), k as int),
            state_views(out@) == listed(texts(all@), k as int),
        decreases all.len() - k,
    {
        let kind = classify_line(&all[k]);
        assert(texts(all@)[k as int] == all[k as int]@);
        if kind.dlc_header {
            in_section = true;
        } else if in_section && kind.section_header {
            in_section = false;
        } else if in_section && !kind.blank && !kind.remark {
            match kind.entry {
                Some(e) => {
                    let name = without_trailing(&without_leading(&e.1, '"'), '"');
                    let ghost before = state_views(out@);
                    let d = DlcInfoWithState {
                        appid: string_of(&e.0),
                        name: string_of(&name),
                        enabled: !kind.disabled,
                    };
                    out.push(d);
                    assert(state_views(out@) =~= before.push(d@));
                },
                None => {},
            }
        }
        k += 1;
    }
    out
}

/// The identifiers of the add-ons that the configuration `contents` enables, in order.
pub fn get_enabled_dlcs(contents: &str) -> (out: Vec<String>)
    ensures
        crate::text::strings(out@) == enabled_ids(lines(contents@), lines(contents@).len() as int),
{
    let all = split_lines(&chars_of(contents));
    let mut out: Vec<String> = Vec::new();
    let mut in_section = false;
    let mut k: usize = 0;
    assert(crate::text::strings(out@) =~= Seq::<Seq<char>>::empty());
    while k < all.len()
        invariant
            k <= all.len(),
            texts(all@) == lines(contents@),
            in_section == inside(texts(all@), k as int),
            crate::text::strings(out@) == enabled_ids(texts(all@), k as int),
        decreases all.len() - k,
    {
        let kind = classify_line(&all[k]);
        assert(texts(all@)[k as int] == all[k as int]@);
        if kind.dlc_header {
            in_section = true;
        } else if in_section && kind.section_header {
            in_section = false;
        } else if in_section && !kind.blank && !kind.remark {
            if !(kind.key.len() > 0 && kind.key[0] == '#') {
                let ghost before = crate::text::strings(out@);
                let id = string_of(&kind.key);
                out.push(id);
                assert(crate::text::strings(out@) =~= before.push(kind.key@));
            }
        }
        k += 1;
    }
    out
}

/// The last item of `dlcs` with the identifier `id`, by its number.
pub fn find_desired(dlcs: &Vec<DlcInfoWithState>, id: &Vec<char>) -> (found: Option<usize>)
    ensures
        match found {
            Some(i) => i < dlcs.len() && desired(state_views(dlcs@), id@) == Some(dlcs[i as int]@),
            None => desired(state_views(dlcs@), id@) is None,
        },
{
    let mut i: usize = dlcs.len();
    assert(state_views(dlcs@).take(i as int) == state_views(dlcs@));
    while i > 0
        invariant
            i <= dlcs.len(),
            desired(state_views(dlcs@), id@) == desired(state_views(dlcs@).take(i as int), id@),
        decreases i,
    {
        let appid = chars_of(dlcs[i - 1].appid.as_str());
        assert(state_views(dlcs@).take(i as int).last() == dlcs[i - 1]@);
        assert(state_views(dlcs@).take(i as int).drop_last() == state_views(dlcs@).take(i - 1));
        if same_text(&appid, id) {
            return Some(i - 1);
        }
        i -= 1;
    }
    None
}

/// Whether `set` holds the text `wanted`.
fn holds_text(set: &Vec<Vec<char>>, wanted: &Vec<char>) -> (r: bool)
    ensures
        r == texts(set@).to_set().contains(wanted@),
{
    let mut i: usize = 0;
    while i < set.len()
        invariant
            i <= set.len(),
            forall|j: int| 0 <= j < i ==> texts(set@)[j] != wanted@,
        decreases set.len() - i,
    {
        if same_text(&set[i], wanted) {
            assert(texts(set@)[i as int] == wanted@);
            return true;
        }
        i += 1;
    }
    false
}

/// Appends to `out` the lines for the add-ons of `dlcs` that are not in `processed`.
fn push_missing(out: &mut Vec<Vec<char>>, dlcs: &Vec<DlcInfoWithState>, processed: &Vec<Vec<char>>)
    ensures
        texts(final(out)@) == texts(old(out)@) + missing_lines(
            state_views(dlcs@),
            texts(processed@).to_set(),
        ),
{
    let mut done: Vec<Vec<char>> = Vec::new();
    let mut j: usize = 0;
    while j < processed.len()
        invariant
            j <= processed.len(),
            texts(done@) == texts(processed@).take(j as int),
        decreases processed.len() - j,
    {
        let ghost before = texts(done@);
        let item = slice_of(&processed[j], 0, processed[j].len());
        assert(item@ == processed[j as int]@);
        done.push(item);
        assert(texts(done@) =~= before.push(processed[j as int]@));
        j += 1;
        assert(texts(processed@).take(j as int) =~= before.push(processed[j - 1]@));
    }
    assert(texts(processed@).take(processed.len() as int) == texts(processed@));
    let ghost start = texts(old(out)@);
    let ghost given = texts(processed@).to_set();
    let mut k: usize = 0;
    assert(texts(out@) =~= start + Seq::<Seq<char>>::empty());
    while k < dlcs.len()
        invariant
            k <= dlcs.len(),
            texts(done@).to_set() == flushed(state_views(dlcs@), k as int, given).done,
            texts(out@) == start + flushed(state_views(dlcs@), k as int, given).lines,
        decreases dlcs.len() - k,
    {
        let id = chars_of(dlcs[k].appid.as_str());
        assert(state_views(dlcs@)[k as int].appid == id@);
        if !holds_text(&done, &id) {
            match find_desired(dlcs, &id) {
                Some(w) => {
                    let name = chars_of(dlcs[w].name.as_str());
                    let mut line: Vec<char> = Vec::new();
                    push_entry_line(&mut line, dlcs[w].enabled, &id, &name);
                    assert(line@ == entry_line(dlcs[w as int].enabled, id@, name@));
                    let ghost out_before = texts(out@);
                    let ghost done_before = texts(done@);
                    out.push(line);
                    assert(texts(out@) =~= out_before.push(line@));
                    done.push(id);
                    assert(texts(done@) =~= done_before.push(id@));
                    proof {
                        crate::text::pushed_texts(done_before, id@);
                        let f = flushed(state_views(dlcs@), k as int, given);
                        assert(start + f.lines.push(line@) =~= (start + f.lines).push(line@));
                    }
                },
                None => {},
            }
        }
        k += 1;
    }
}

/// Merges the states of `dlcs` into the configuration `contents`. Every line
/// outside the add-on section stays as it is and where it is; in the section,
/// the line of an add-on that `dlcs` names is switched on or off as `dlcs`
/// asks; add-ons that `dlcs` names and the section does not list get lines of
/// their own at the end of the section.
pub fn update_dlc_configuration(contents: &str, dlcs: &Vec<DlcInfoWithState>) -> (updated: String)
    ensures
        updated@ == merged_text(contents@, state_views(dlcs@)),
{
    let all = split_lines(&chars_of(contents));
    let mut out: Vec<Vec<char>> = Vec::new();
    let mut processed: Vec<Vec<char>> = Vec::new();
    let mut in_section = false;
    let mut k: usize = 0;
    assert(texts(out@) =~= Seq::<Seq<char>>::empty());
    assert(texts(processed@).to_set() =~= Set::<Seq<char>>::empty());
    while k < all.len()
        invariant
            k <= all.len(),
            texts(all@) == lines(contents@),
            (Pass { in_section, processed: texts(processed@).to_set(), out: texts(out@) })
                == passed(texts(all@), state_views(dlcs@), Pass::start(), k as int),
        decreases all.len() - k,
    {
        let line = &all[k];
        let kind = classify_line(line);
        assert(texts(all@)[k as int] == line@);
        let ghost out_before = texts(out@);
        let ghost processed_before = texts(processed@);
        let mut rewritten = false;
        if kind.dlc_header {
            in_section = true;
        } else if in_section && kind.section_header {
            in_section = false;
            push_missing(&mut out, dlcs, &processed);
        } else if in_section && !kind.blank && !kind.remark {
            match kind.entry {
                Some(e) => {
                    match find_desired(dlcs, &e.0) {
                        Some(w) => {
                            let mut fresh: Vec<char> = Vec::new();
                            push_entry_line(&mut fresh, dlcs[w].enabled, &e.0, &e.1);
                            assert(fresh@ == entry_line(dlcs[w as int].enabled, e.0@, e.1@));
                            out.push(fresh);
                            assert(texts(out@) =~= out_before.push(fresh@));
                            processed.push(e.0);
                            assert(texts(processed@) =~= processed_before.push(e.0@));
                            proof {
                                crate::text::pushed_texts(processed_before, e.0@);
                            }
                            rewritten = true;
                        },
                        None => {},
                    }
                },
                None => {},
            }
        }
        if !rewritten {
            let ghost mid = texts(out@);
            out.push(slice_of(line, 0, line.len()));
            assert(line@.subrange(0, line@.len() as int) == line@);
            assert(texts(out@) =~= mid.push(line@));
        }
        k += 1;
    }
    if in_section {
        push_missing(&mut out, dlcs, &processed);
    }
    let newline = chars_of("\n");
    string_of(&join_with(&out, &newline))
}

/// The path of the configuration of the title in `game_path`.
pub fn configuration_path(game_path: &str) -> (path: String)
    ensures
        path@ == joined(game_path@, "cream_api.ini"@),
{
    join_path(game_path, "cream_api.ini")
}

/// The text of the configuration of the title in `game_path`, given what was
/// found at its place: a title without the file has no configuration to read
/// or to update, and a file that cannot be read is a failure of the disk.
pub fn read_configuration(game_path: &str, found: Stored<String>) -> (r: Result<
    String,
    InstallerError,
>)
    ensures
        match found {
            Stored::Value(text) => r == Ok::<String, InstallerError>(text),
            Stored::Absent => r matches Err(e) && e.class() == ErrorKind::NotFound && e.text()
                == "cream_api.ini not found at "@ + joined(game_path@, "cream_api.ini"@),
            Stored::Unreadable => r matches Err(e) && e.class() == ErrorKind::IoFailure,
        },
{
    match found {
        Stored::Value(text) => Ok(text),
        Stored::Absent => {
            let mut message = "cream_api.ini not found at ".to_owned();
            message.append(configuration_path(game_path).as_str());
            Err(InstallerError::NotFound(message))
        },
        Stored::Unreadable => Err(
            InstallerError::IoFailure("Failed to read cream_api.ini".to_owned()),
        ),
    }
}

} // verus!
