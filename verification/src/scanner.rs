//! The scan of the library roots for installed titles: which descriptor files
//! name a title worth looking at, how the look at each title becomes a record,
//! and how many titles are looked at at a time.

use vstd::prelude::*;
use crate::outside::{
    available_cpus, first_capture, pattern_found, regex_first_capture, regex_found,
};
use crate::paths::{join_path, joined};
use crate::text::{
    chars_of, copy_texts, ends_with, has_prefix, has_suffix, starts_with, str_eq, strings,
};

verus! {

/// The record of one installed title.
#[derive(Debug, Clone)]
pub struct GameInfo {
    pub id: String,
    pub title: String,
    pub path: String,
    pub native: bool,
    pub api_files: Vec<String>,
    pub cream_installed: bool,
    pub smoke_installed: bool,
}

/// A record as plain values.
pub struct GameView {
    pub id: Seq<char>,
    pub title: Seq<char>,
    pub path: Seq<char>,
    pub native: bool,
    pub api_files: Seq<Seq<char>>,
    pub cream_installed: bool,
    pub smoke_installed: bool,
}

impl View for GameInfo {
    type V = GameView;

    open spec fn view(&self) -> GameView {
        GameView {
            id: self.id@,
            title: self.title@,
            path: self.path@,
            native: self.native,
            api_files: strings(self.api_files@),
            cream_installed: self.cream_installed,
            smoke_installed: self.smoke_installed,
        }
    }
}

/// The records of `v` as plain values.
pub open spec fn game_views(v: Seq<GameInfo>) -> Seq<GameView> {
    Seq::new(v.len(), |i: int| v[i]@)
}

/// A descriptor file: the library root it lies in, and its text.
#[derive(Debug, Clone)]
pub struct ManifestFile {
    pub steamapps_dir: String,
    pub content: String,
}

/// A descriptor file as plain values.
pub struct ManifestFileView {
    pub steamapps_dir: Seq<char>,
    pub content: Seq<char>,
}

impl View for ManifestFile {
    type V = ManifestFileView;

    open spec fn view(&self) -> ManifestFileView {
        ManifestFileView { steamapps_dir: self.steamapps_dir@, content: self.content@ }
    }
}

/// The descriptor files of `v` as plain values.
pub open spec fn file_views(v: Seq<ManifestFile>) -> Seq<ManifestFileView> {
    Seq::new(v.len(), |i: int| v[i]@)
}

/// A title worth looking at: its identifier, its name and its directory.
#[derive(Debug, Clone)]
pub struct Candidate {
    pub id: String,
    pub title: String,
    pub path: String,
}

/// A candidate as plain values.
pub struct CandidateView {
    pub id: Seq<char>,
    pub title: Seq<char>,
    pub path: Seq<char>,
}

impl View for Candidate {
    type V = CandidateView;

    open spec fn view(&self) -> CandidateView {
        CandidateView { id: self.id@, title: self.title@, path: self.path@ }
    }
}

/// The candidates of `v` as plain values.
pub open spec fn candidate_views(v: Seq<Candidate>) -> Seq<CandidateView> {
    Seq::new(v.len(), |i: int| v[i]@)
}

/// What the look at one title's directory found.
#[derive(Debug, Clone)]
pub struct TitleSurvey {
    pub native: bool,
    pub api_files: Vec<String>,
    pub cream_installed: bool,
    /// A backup lies beside one of the binaries.
    pub shim_backup_found: bool,
}

/// A survey as plain values.
pub struct SurveyView {
    pub native: bool,
    pub api_files: Seq<Seq<char>>,
    pub cream_installed: bool,
    pub shim_backup_found: bool,
}

impl View for TitleSurvey {
    type V = SurveyView;

    open spec fn view(&self) -> SurveyView {
        SurveyView {
            native: self.native,
            api_files: strings(self.api_files@),
            cream_installed: self.cream_installed,
            shim_backup_found: self.shim_backup_found,
        }
    }
}

/// The surveys of `v` as plain values; `None` stands for a directory that is
/// not there.
pub open spec fn survey_views(v: Seq<Option<TitleSurvey>>) -> Seq<Option<SurveyView>> {
    Seq::new(
        v.len(),
        |i: int|
            match v[i] {
                Some(s) => Some(s@),
                None => None,
            },
    )
}

/// The expression that finds a title's identifier in a descriptor file.
pub open spec fn appid_pattern() -> Seq<char> {
    "\"appid\"\\s+\"(\\d+)\""@
}

/// The expression that finds a title's name in a descriptor file.
pub open spec fn name_pattern() -> Seq<char> {
    "\"name\"\\s+\"([^\"]+)\""@
}

/// The expression that finds a title's directory in a descriptor file.
pub open spec fn installdir_pattern() -> Seq<char> {
    "\"installdir\"\\s+\"([^\"]+)\""@
}

/// A descriptor: identifier, name and directory, where all three were found.
pub open spec fn descriptor(
    appid: Option<Seq<char>>,
    name: Option<Seq<char>>,
    installdir: Option<Seq<char>>,
) -> Option<(Seq<char>, Seq<char>, Seq<char>)> {
    if appid is Some && name is Some && installdir is Some {
        Some((appid->0, name->0, installdir->0))
    } else {
        None
    }
}

/// What a descriptor file says of its title: identifier, name and directory,
/// each as the regular expression for it finds it; nothing if one is missing.
pub open spec fn descriptor_of(content: Seq<char>) -> Option<(Seq<char>, Seq<char>, Seq<char>)> {
    descriptor(
        regex_first_capture(appid_pattern(), content),
        regex_first_capture(name_pattern(), content),
        regex_first_capture(installdir_pattern(), content),
    )
}

/// Identifier, name and directory of a title, where all three were found.
pub fn descriptor_from(appid: Option<String>, name: Option<String>, installdir: Option<String>) -> (r:
    Option<(String, String, String)>)
    ensures
        match r {
            Some(d) => descriptor(
                crate::manifest::opt_text(appid),
                crate::manifest::opt_text(name),
                crate::manifest::opt_text(installdir),
            ) == Some((d.0@, d.1@, d.2@)),
            None => descriptor(
                crate::manifest::opt_text(appid),
                crate::manifest::opt_text(name),
                crate::manifest::opt_text(installdir),
            ) is None,
        },
{
    match (appid, name, installdir) {
        (Some(a), Some(n), Some(d)) => Some((a, n, d)),
        _ => None,
    }
}

/// Reads identifier, name and directory out of the text of a descriptor file.
pub fn parse_appmanifest(content: &str) -> (r: Option<(String, String, String)>)
    ensures
        match r {
            Some(d) => descriptor_of(content@) == Some((d.0@, d.1@, d.2@)),
            None => descriptor_of(content@) is None,
        },
{
    let appid = first_capture("\"appid\"\\s+\"(\\d+)\"", content);
    let name = first_capture("\"name\"\\s+\"([^\"]+)\"", content);
    let installdir = first_capture("\"installdir\"\\s+\"([^\"]+)\"", content);
    descriptor_from(appid, name, installdir)
}

/// Whether a file of this name is a descriptor file.
pub fn is_appmanifest_name(file_name: &str) -> (r: bool)
    ensures
        r == (has_prefix(file_name@, "appmanifest_"@) && has_suffix(file_name@, ".acf"@)),
{
    let n = chars_of(file_name);
    starts_with(&n, &chars_of("appmanifest_")) && ends_with(&n, &chars_of(".acf"))
}

/// The identifier is that of a tool or runtime that is never listed.
pub open spec fn is_skipped_id(id: Seq<char>) -> bool {
    id == "228980"@ || id == "1070560"@ || id == "1391110"@ || id == "1628350"@ || id
        == "1493710"@ || id == "2180100"@
}

/// Whether the identifier is that of a tool or runtime that is never listed.
pub fn skips_id(id: &str) -> (r: bool)
    ensures
        r == is_skipped_id(id@),
{
    str_eq(id, "228980") || str_eq(id, "1070560") || str_eq(id, "1391110") || str_eq(id, "1628350")
        || str_eq(id, "1493710") || str_eq(id, "2180100")
}

/// The name is that of a compatibility layer or a redistributable: one of the
/// six expressions for them, which ignore case, is found in it.
pub open spec fn is_skipped_title(name: Seq<char>) -> bool {
    regex_found("(?i)steam linux runtime"@, name) || regex_found("(?i)proton"@, name)
        || regex_found("(?i)steamworks common"@, name) || regex_found("(?i)redistributable"@, name)
        || regex_found("(?i)dotnet"@, name) || regex_found("(?i)vc redist"@, name)
}

/// Whether the name is that of a compatibility layer or a redistributable.
pub fn skips_title(name: &str) -> (r: bool)
    ensures
        r == is_skipped_title(name@),
{
    pattern_found("(?i)steam linux runtime", name) || pattern_found("(?i)proton", name)
        || pattern_found("(?i)steamworks common", name) || pattern_found(
        "(?i)redistributable",
        name,
    ) || pattern_found("(?i)dotnet", name) || pattern_found("(?i)vc redist", name)
}

/// The directory of the title `installdir` in the library root `steamapps_dir`.
pub open spec fn title_path(steamapps_dir: Seq<char>, installdir: Seq<char>) -> Seq<char> {
    joined(joined(steamapps_dir, "common"@), installdir)
}

/// The identifiers taken so far, and the candidates admitted so far.
pub struct Selection {
    pub seen: Set<Seq<char>>,
    pub admitted: Seq<CandidateView>,
}

/// The selection after the first `k` descriptor files. A file that cannot be
/// read as a descriptor is passed over, and so is one with a skipped
/// identifier. An identifier is taken by the first file that names it: later
/// files with it are passed over. A title with a skipped name takes its
/// identifier and is not admitted.
pub open spec fn selected(files: Seq<ManifestFileView>, k: int) -> Selection
    decreases k,
{
    if k <= 0 {
        Selection { seen: Set::empty(), admitted: Seq::empty() }
    } else {
        let before = selected(files, k - 1);
        match descriptor_of(files[k - 1].content) {
            None => before,
            Some(d) => if is_skipped_id(d.0) || before.seen.contains(d.0) {
                before
            } else {
                Selection {
                    seen: before.seen.insert(d.0),
                    admitted: if is_skipped_title(d.1) {
                        before.admitted
                    } else {
                        before.admitted.push(
                            CandidateView {
                                id: d.0,
                                title: d.1,
                                path: title_path(files[k - 1].steamapps_dir, d.2),
                            },
                        )
                    },
                }
            },
        }
    }
}

/// What was read out of one descriptor file: the library root it lies in, its
/// identifier, name and directory if it could be read, and whether the name is
/// that of a compatibility layer or a redistributable.
#[derive(Debug, Clone)]
pub struct ParsedManifest {
    pub steamapps_dir: String,
    pub descriptor: Option<(String, String, String)>,
    pub title_skipped: bool,
}

/// A parsed descriptor file as plain values.
pub struct ParsedView {
    pub steamapps_dir: Seq<char>,
    pub descriptor: Option<(Seq<char>, Seq<char>, Seq<char>)>,
    pub title_skipped: bool,
}

/// A descriptor as plain values.
pub open spec fn descriptor_view(d: Option<(String, String, String)>) -> Option<
    (Seq<char>, Seq<char>, Seq<char>),
> {
    match d {
        Some(t) => Some((t.0@, t.1@, t.2@)),
        None => None,
    }
}

impl View for ParsedManifest {
    type V = ParsedView;

    open spec fn view(&self) -> ParsedView {
        ParsedView {
            steamapps_dir: self.steamapps_dir@,
            descriptor: descriptor_view(self.descriptor),
            title_skipped: self.title_skipped,
        }
    }
}

/// The parsed descriptor files of `v` as plain values.
pub open spec fn parsed_views(v: Seq<ParsedManifest>) -> Seq<ParsedView> {
    Seq::new(v.len(), |i: int| v[i]@)
}

/// The selection after the first `k` parsed descriptor files. A file that
/// could not be read is passed over, and so is one with a skipped identifier.
/// An identifier is taken by the first file that names it: later files with it
/// are passed over. A title with a skipped name takes its identifier and is not
/// admitted.
pub open spec fn chosen(parsed: Seq<ParsedView>, k: int) -> Selection
    decreases k,
{
    if k <= 0 {
        Selection { seen: Set::empty(), admitted: Seq::empty() }
    } else {
        let before = chosen(parsed, k - 1);
        match parsed[k - 1].descriptor {
            None => before,
            Some(d) => if is_skipped_id(d.0) || before.seen.contains(d.0) {
                before
            } else {
                Selection {
                    seen: before.seen.insert(d.0),
                    admitted: if parsed[k - 1].title_skipped {
                        before.admitted
                    } else {
                        before.admitted.push(
                            CandidateView {
                                id: d.0,
                                title: d.1,
                                path: title_path(parsed[k - 1].steamapps_dir, d.2),
                            },
                        )
                    },
                }
            },
        }
    }
}

/// What is read out of the descriptor file `file`: the descriptor as the
/// regular expressions find it, and whether they find its name to be skipped.
pub open spec fn parsed_of(file: ManifestFileView) -> ParsedView {
    ParsedView {
        steamapps_dir: file.steamapps_dir,
        descriptor: descriptor_of(file.content),
        title_skipped: match descriptor_of(file.content) {
            Some(d) => is_skipped_title(d.1),
            None => false,
        },
    }
}

/// What is read out of each of `files`, in order.
pub open spec fn parsed_all(files: Seq<ManifestFileView>) -> Seq<ParsedView> {
    Seq::new(files.len(), |i: int| parsed_of(files[i]))
}

/// The selection among descriptor files is the selection among what is read out
/// of them.
pub proof fn selected_is_chosen(files: Seq<ManifestFileView>, k: int)
    requires
        0 <= k <= files.len(),
    ensures
        selected(files, k) == chosen(parsed_all(files), k),
    decreases k,
{
    if k > 0 {
        selected_is_chosen(files, k - 1);
    }
}

/// Every admitted candidate has taken its identifier, and no two of them share one.
pub proof fn chosen_is_unique(parsed: Seq<ParsedView>, k: int)
    requires
        0 <= k <= parsed.len(),
    ensures
        forall|i: int|
            0 <= i < chosen(parsed, k).admitted.len() ==> chosen(parsed, k).seen.contains(
                (#[trigger] chosen(parsed, k).admitted[i]).id,
            ),
        forall|i: int, j: int|
            0 <= i < j < chosen(parsed, k).admitted.len() ==> (#[trigger] chosen(
                parsed,
                k,
            ).admitted[i]).id != (#[trigger] chosen(parsed, k).admitted[j]).id,
    decreases k,
{
    if k > 0 {
        chosen_is_unique(parsed, k - 1);
        let before = chosen(parsed, k - 1);
        let now = chosen(parsed, k);
        assert forall|i: int| 0 <= i < now.admitted.len() implies now.seen.contains(
            (#[trigger] now.admitted[i]).id,
        ) by {
            if i < before.admitted.len() {
                assert(now.admitted[i] == before.admitted[i]);
                assert(before.seen.contains(before.admitted[i].id));
            }
        }
        assert forall|i: int, j: int| 0 <= i < j < now.admitted.len() implies (
        #[trigger] now.admitted[i]).id != (#[trigger] now.admitted[j]).id by {
            assert(now.admitted[i] == before.admitted[i]);
            assert(before.seen.contains(before.admitted[i].id));
            if j < before.admitted.len() {
                assert(now.admitted[j] == before.admitted[j]);
            }
        }
    }
}

/// The candidates among all of `files`.
pub open spec fn candidates_of(files: Seq<ManifestFileView>) -> Seq<CandidateView> {
    selected(files, files.len() as int).admitted
}

/// Every admitted candidate has taken its identifier, and no two of them share one.
pub proof fn selection_is_unique(files: Seq<ManifestFileView>, k: int)
    requires
        0 <= k <= files.len(),
    ensures
        forall|i: int|
            0 <= i < selected(files, k).admitted.len() ==> selected(files, k).seen.contains(
                (#[trigger] selected(files, k).admitted[i]).id,
            ),
        forall|i: int, j: int|
            0 <= i < j < selected(files, k).admitted.len() ==> (#[trigger] selected(
                files,
                k,
            ).admitted[i]).id != (#[trigger] selected(files, k).admitted[j]).id,
{
    selected_is_chosen(files, k);
    chosen_is_unique(parsed_all(files), k);
}

/// Whether `seen` holds the identifier `id`.
fn was_seen(seen: &Vec<String>, id: &str) -> (r: bool)
    ensures
        r == strings(seen@).to_set().contains(id@),
{
    let mut i: usize = 0;
    while i < seen.len()
        invariant
            i <= seen.len(),
            forall|j: int| 0 <= j < i ==> strings(seen@)[j] != id@,
        decreases seen.len() - i,
    {
        if str_eq(seen[i].as_str(), id) {
            assert(strings(seen@)[i as int] == id@);
            return true;
        }
        i += 1;
    }
    false
}

/// Picks the titles worth looking at among parsed descriptor files, in the
/// order of the files. No two candidates share an identifier.
pub fn select_among(parsed: &Vec<ParsedManifest>) -> (out: Vec<Candidate>)
    ensures
        candidate_views(out@) == chosen(parsed_views(parsed@), parsed@.len() as int).admitted,
        forall|i: int, j: int| 0 <= i < j < out.len() ==> out[i].id@ != out[j].id@,
{
    let mut out: Vec<Candidate> = Vec::new();
    let mut seen: Vec<String> = Vec::new();
    let mut k: usize = 0;
    assert(strings(seen@).to_set() =~= Set::<Seq<char>>::empty());
    assert(candidate_views(out@) =~= Seq::<CandidateView>::empty());
    while k < parsed.len()
        invariant
            k <= parsed.len(),
            strings(seen@).to_set() == chosen(parsed_views(parsed@), k as int).seen,
            candidate_views(out@) == chosen(parsed_views(parsed@), k as int).admitted,
        decreases parsed.len() - k,
    {
        let file = &parsed[k];
        assert(parsed_views(parsed@)[k as int] == file@);
        match &file.descriptor {
            None => {},
            Some(d) => {
                if !skips_id(d.0.as_str()) && !was_seen(&seen, d.0.as_str()) {
                    let ghost seen_before = strings(seen@);
                    seen.push(d.0.clone());
                    assert(strings(seen@) =~= seen_before.push(d.0@));
                    proof {
                        crate::text::pushed_texts(seen_before, d.0@);
                    }
                    if !file.title_skipped {
                        let common = join_path(file.steamapps_dir.as_str(), "common");
                        let path = join_path(common.as_str(), d.2.as_str());
                        let ghost out_before = candidate_views(out@);
                        let c = Candidate { id: d.0.clone(), title: d.1.clone(), path };
                        out.push(c);
                        assert(candidate_views(out@) =~= out_before.push(c@));
                    }
                }
            },
        }
        k += 1;
    }
    proof {
        chosen_is_unique(parsed_views(parsed@), parsed.len() as int);
        assert forall|i: int, j: int| 0 <= i < j < out.len() implies out[i].id@ != out[j].id@ by {
            assert(candidate_views(out@)[i].id == out[i].id@);
            assert(candidate_views(out@)[j].id == out[j].id@);
        }
    }
    out
}

/// Reads each descriptor file: its identifier, name and directory, and whether
/// its name is skipped.
pub fn parse_manifests(files: &Vec<ManifestFile>) -> (out: Vec<ParsedManifest>)
    ensures
        parsed_views(out@) == parsed_all(file_views(files@)),
{
    let mut out: Vec<ParsedManifest> = Vec::new();
    let mut k: usize = 0;
    while k < files.len()
        invariant
            k <= files.len(),
            parsed_views(out@) == parsed_all(file_views(files@)).take(k as int),
        decreases files.len() - k,
    {
        let file = &files[k];
        assert(file_views(files@)[k as int] == file@);
        let descriptor = parse_appmanifest(file.content.as_str());
        let title_skipped = match &descriptor {
            Some(d) => skips_title(d.1.as_str()),
            None => false,
        };
        let ghost before = parsed_views(out@);
        let p = ParsedManifest {
            steamapps_dir: file.steamapps_dir.clone(),
            descriptor,
            title_skipped,
        };
        assert(p@ == parsed_of(file@));
        out.push(p);
        assert(parsed_views(out@) =~= before.push(p@));
        k += 1;
        assert(parsed_all(file_views(files@)).take(k as int) =~= before.push(p@));
    }
    assert(parsed_all(file_views(files@)).take(files.len() as int) == parsed_all(
        file_views(files@),
    ));
    out
}

/// Picks the titles worth looking at from the descriptor files of all library
/// roots, in the order of the files. No two candidates share an identifier.
pub fn select_candidates(files: &Vec<ManifestFile>) -> (out: Vec<Candidate>)
    ensures
        candidate_views(out@) == candidates_of(file_views(files@)),
        forall|i: int, j: int| 0 <= i < j < out.len() ==> out[i].id@ != out[j].id@,
{
    let parsed = parse_manifests(files);
    proof {
        selected_is_chosen(file_views(files@), files.len() as int);
        assert(parsed_views(parsed@).len() == parsed_all(file_views(files@)).len());
        assert(parsed@.len() == files@.len());
    }
    select_among(&parsed)
}

/// The record of a title whose directory was looked at. The api shim counts as
/// applied wherever a backup lies beside one of the title's binaries, whatever
/// the title's platform.
pub open spec fn record_of(c: CandidateView, s: SurveyView) -> GameView {
    GameView {
        id: c.id,
        title: c.title,
        path: c.path,
        native: s.native,
        api_files: s.api_files,
        cream_installed: s.cream_installed,
        smoke_installed: s.shim_backup_found,
    }
}

/// The records of the first `k` candidates, each with the survey of its number;
/// a candidate whose directory is not there, or that has no survey, yields none.
pub open spec fn records(cands: Seq<CandidateView>, surveys: Seq<Option<SurveyView>>, k: int) -> Seq<
    GameView,
>
    decreases k,
{
    if k <= 0 {
        Seq::empty()
    } else if k - 1 < surveys.len() && surveys[k - 1] is Some {
        records(cands, surveys, k - 1).push(record_of(cands[k - 1], surveys[k - 1]->0))
    } else {
        records(cands, surveys, k - 1)
    }
}

/// A candidate before the `k`-th has the identifier `id`.
pub open spec fn names(cands: Seq<CandidateView>, k: int, id: Seq<char>) -> bool {
    exists|m: int| 0 <= m < k && (#[trigger] cands[m]).id == id
}

/// Where no two candidates share an identifier, no two records do: each record
/// has the identifier of its candidate.
pub proof fn records_are_unique(cands: Seq<CandidateView>, surveys: Seq<Option<SurveyView>>, k: int)
    requires
        0 <= k <= cands.len(),
        forall|i: int, j: int|
            0 <= i < j < cands.len() ==> (#[trigger] cands[i]).id != (#[trigger] cands[j]).id,
    ensures
        forall|i: int|
            0 <= i < records(cands, surveys, k).len() ==> names(
                cands,
                k,
                (#[trigger] records(cands, surveys, k)[i]).id,
            ),
        forall|i: int, j: int|
            0 <= i < j < records(cands, surveys, k).len() ==> (#[trigger] records(
                cands,
                surveys,
                k,
            )[i]).id != (#[trigger] records(cands, surveys, k)[j]).id,
    decreases k,
{
    if k > 0 {
        records_are_unique(cands, surveys, k - 1);
        let before = records(cands, surveys, k - 1);
        let now = records(cands, surveys, k);
        assert forall|i: int| 0 <= i < now.len() implies names(cands, k, (#[trigger] now[i]).id) by {
            if i < before.len() {
                assert(now[i] == before[i]);
                assert(names(cands, k - 1, before[i].id));
                let m = choose|m: int| 0 <= m < k - 1 && (#[trigger] cands[m]).id == before[i].id;
                assert(0 <= m < k && cands[m].id == now[i].id);
            } else {
                assert(cands[k - 1].id == now[i].id);
            }
        }
        assert forall|i: int, j: int| 0 <= i < j < now.len() implies (#[trigger] now[i]).id != (
        #[trigger] now[j]).id by {
            assert(now[i] == before[i]);
            if j < before.len() {
                assert(now[j] == before[j]);
            } else {
                assert(names(cands, k - 1, before[i].id));
                let m = choose|m: int| 0 <= m < k - 1 && (#[trigger] cands[m]).id == before[i].id;
                assert(cands[m].id != cands[k - 1].id);
            }
        }
    }
}

/// A scan never yields two records with one identifier, whatever the
/// descriptor files hold and in however many library roots a title is named.
pub proof fn scan_has_no_duplicates(files: Seq<ManifestFileView>, surveys: Seq<Option<SurveyView>>)
    ensures
        ({
            let found = records(candidates_of(files), surveys, candidates_of(files).len() as int);
            forall|i: int, j: int|
                0 <= i < j < found.len() ==> (#[trigger] found[i]).id != (#[trigger] found[j]).id
        }),
{
    let cands = candidates_of(files);
    selection_is_unique(files, files.len() as int);
    records_are_unique(cands, surveys, cands.len() as int);
}

/// Where every candidate has a survey, a scan yields one record for each
/// candidate, however many there are.
pub proof fn every_title_yields_one_record(
    cands: Seq<CandidateView>,
    surveys: Seq<Option<SurveyView>>,
    k: int,
)
    requires
        0 <= k <= cands.len(),
        surveys.len() == cands.len(),
        forall|i: int| 0 <= i < surveys.len() ==> (#[trigger] surveys[i]) is Some,
    ensures
        records(cands, surveys, k).len() == k,
        forall|i: int|
            0 <= i < k ==> (#[trigger] records(cands, surveys, k)[i]) == record_of(
                cands[i],
                surveys[i]->0,
            ),
    decreases k,
{
    if k > 0 {
        every_title_yields_one_record(cands, surveys, k - 1);
    }
}

/// Makes the records of the candidates `cands`, each with the survey of its
/// number in `surveys`, in the order of the candidates. A candidate whose
/// directory is not there, or that has no survey, yields no record.
pub fn collect_records(cands: &Vec<Candidate>, surveys: &Vec<Option<TitleSurvey>>) -> (out: Vec<
    GameInfo,
>)
    ensures
        game_views(out@) == records(
            candidate_views(cands@),
            survey_views(surveys@),
            cands@.len() as int,
        ),
{
    let mut out: Vec<GameInfo> = Vec::new();
    let mut k: usize = 0;
    assert(game_views(out@) =~= Seq::<GameView>::empty());
    while k < cands.len()
        invariant
            k <= cands.len(),
            game_views(out@) == records(
                candidate_views(cands@),
                survey_views(surveys@),
                k as int,
            ),
        decreases cands.len() - k,
    {
        if k < surveys.len() {
            match &surveys[k] {
                Some(s) => {
                    assert(survey_views(surveys@)[k as int] == Some(s@));
                    let c = &cands[k];
                    assert(candidate_views(cands@)[k as int] == c@);
                    let ghost before = game_views(out@);
                    let g = GameInfo {
                        id: c.id.clone(),
                        title: c.title.clone(),
                        path: c.path.clone(),
                        native: s.native,
                        api_files: copy_texts(&s.api_files),
                        cream_installed: s.cream_installed,
                        smoke_installed: s.shim_backup_found,
                    };
                    out.push(g);
                    assert(game_views(out@) =~= before.push(record_of(c@, s@)));
                },
                None => {
                    assert(survey_views(surveys@)[k as int] is None);
                },
            }
        }
        k += 1;
    }
    out
}

/// Makes the records of a scan: the candidates among the descriptor files
/// `files`, each with the survey of its number in `surveys`. No two records
/// share an identifier.
pub fn find_installed_games(files: &Vec<ManifestFile>, surveys: &Vec<Option<TitleSurvey>>) -> (out:
    Vec<GameInfo>)
    ensures
        game_views(out@) == records(
            candidates_of(file_views(files@)),
            survey_views(surveys@),
            candidates_of(file_views(files@)).len() as int,
        ),
        forall|i: int, j: int| 0 <= i < j < out.len() ==> out[i].id@ != out[j].id@,
{
    let cands = select_candidates(files);
    assert(candidate_views(cands@).len() == cands@.len());
    let out = collect_records(&cands, surveys);
    proof {
        scan_has_no_duplicates(file_views(files@), survey_views(surveys@));
        let found = records(
            candidates_of(file_views(files@)),
            survey_views(surveys@),
            candidates_of(file_views(files@)).len() as int,
        );
        assert(game_views(out@) == found);
        assert forall|i: int, j: int| 0 <= i < j < out.len() implies out[i].id@ != out[j].id@ by {
            assert(found[i].id == out[i].id@);
            assert(found[j].id == out[j].id@);
            assert(found[i].id != found[j].id);
        }
    }
    out
}

/// The number of titles looked at at a time, for a machine with `available`
/// processors: as many as there are processors, one at least and eight at most.
pub open spec fn worker_bound(available: nat) -> nat {
    if available < 1 {
        1
    } else if available > 8 {
        8
    } else {
        available
    }
}

/// The number of titles looked at at a time, for a machine with `available`
/// processors.
pub fn worker_count(available: usize) -> (w: usize)
    ensures
        w == worker_bound(available as nat),
{
    if available < 1 {
        1
    } else if available > 8 {
        8
    } else {
        available
    }
}

/// The number of titles looked at at a time on this machine: between one and
/// eight, whatever the machine.
pub fn scan_workers() -> (w: usize)
    ensures
        1 <= w <= 8,
{
    worker_count(available_cpus())
}

/// The hand-out of `total` titles to workers, `limit` at a time at most.
#[derive(Debug, Clone, Copy, PartialEq, Eq, Structural)]
pub struct ScanBoard {
    total: usize,
    limit: usize,
    issued: usize,
    finished: usize,
}

/// A board as plain values.
pub struct BoardView {
    pub total: nat,
    pub limit: nat,
    pub issued: nat,
    pub finished: nat,
}

impl View for ScanBoard {
    type V = BoardView;

    closed spec fn view(&self) -> BoardView {
        BoardView {
            total: self.total as nat,
            limit: self.limit as nat,
            issued: self.issued as nat,
            finished: self.finished as nat,
        }
    }
}

impl BoardView {
    /// The titles that are being looked at.
    pub open spec fn running(self) -> int {
        self.issued - self.finished
    }

    /// No title is handed out twice or beyond the last, no more are finished
    /// than were handed out, and no more are running than the limit allows.
    pub open spec fn valid(self) -> bool {
        self.finished <= self.issued <= self.total && self.running() <= self.limit && self.limit
            >= 1
    }
}

impl ScanBoard {
    /// No title is handed out twice or beyond the last, no more are finished
    /// than were handed out, and no more are running than the limit allows.
    #[verifier::type_invariant]
    spec fn well_formed(self) -> bool {
        self.finished <= self.issued <= self.total && self.issued - self.finished <= self.limit
            && self.limit >= 1
    }

    /// A board for `total` titles and at most `limit` workers; a limit of 0
    /// counts as 1.
    pub fn new(total: usize, limit: usize) -> (b: ScanBoard)
        ensures
            b@.valid(),
            b@ == (BoardView {
                total: total as nat,
                limit: if limit == 0 {
                    1
                } else {
                    limit as nat
                },
                issued: 0,
                finished: 0,
            }),
    {
        ScanBoard {
            total,
            limit: if limit == 0 {
                1
            } else {
                limit
            },
            issued: 0,
            finished: 0,
        }
    }

    /// Hands out the next title, by its number, if one is left and a worker is
    /// free. The numbers come in order, each once.
    pub fn claim(&mut self) -> (next: Option<usize>)
        ensures
            old(self)@.valid(),
            final(self)@.valid(),
            final(self)@.total == old(self)@.total,
            final(self)@.limit == old(self)@.limit,
            final(self)@.finished == old(self)@.finished,
            match next {
                Some(n) => n == old(self)@.issued && n < old(self)@.total && old(self)@.running()
                    < old(self)@.limit && final(self)@.issued == n + 1,
                None => (old(self)@.issued == old(self)@.total || old(self)@.running() == old(
                    self,
                )@.limit) && final(self)@ == old(self)@,
            },
    {
        proof {
            use_type_invariant(&*self);
        }
        if self.issued < self.total && self.issued - self.finished < self.limit {
            let n = self.issued;
            self.issued = n + 1;
            Some(n)
        } else {
            None
        }
    }

    /// Takes note that the look at one title has ended, whatever it found. It
    /// returns whether a title was running at all.
    pub fn complete(&mut self) -> (counted: bool)
        ensures
            old(self)@.valid(),
            final(self)@.valid(),
            counted == (old(self)@.running() > 0),
            final(self)@ == (BoardView {
                finished: if counted {
                    old(self)@.finished + 1
                } else {
                    old(self)@.finished
                },
                ..old(self)@
            }),
    {
        proof {
            use_type_invariant(&*self);
        }
        if self.finished < self.issued {
            self.finished = self.finished + 1;
            true
        } else {
            false
        }
    }

    /// Whether every title was handed out and has ended: as many results are
    /// in as there are titles.
    pub fn is_done(&self) -> (r: bool)
        ensures
            self@.valid(),
            r == (self@.finished == self@.total),
            r ==> self@.issued == self@.total && self@.running() == 0,
    {
        proof {
            use_type_invariant(self);
        }
        self.finished == self.total
    }
}

} // verus!
