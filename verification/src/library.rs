//! The search for library roots: where to look first, what the registry and the
//! library descriptor files add, and the bookkeeping that keeps the search from
//! visiting a root twice.

use vstd::prelude::*;
use crate::outside::{all_captures, first_capture, regex_all_captures, regex_first_capture};
use crate::paths::{join_path, joined};
use crate::proofs::search::{
    entry_for, entry_is_first, search_finds_each_root_once, search_from, search_goes_on, searched,
    step, step_gets_closer, unfound, world_is_finite, world_of, DirView,
};
use crate::text::strings;

verus! {

/// The places below the user's home directory where the platform is commonly
/// installed, in the order in which they are tried. The last stands for
/// removable storage and is an absolute path.
pub open spec fn home_candidates(home: Seq<char>) -> Seq<Seq<char>> {
    seq![
        joined(home, ".steam/steam"@),
        joined(home, ".steam/root"@),
        joined(home, ".local/share/Steam"@),
        joined(home, ".var/app/com.valvesoftware.Steam/.local/share/Steam"@),
        joined(home, ".var/app/com.valvesoftware.Steam/data/Steam"@),
        joined(home, "/run/media/mmcblk0p1"@),
    ]
}

/// The places where the platform is installed on a handheld.
pub open spec fn deck_candidates() -> Seq<Seq<char>> {
    seq!["/home/deck/.steam/steam"@, "/home/deck/.local/share/Steam"@]
}

/// The places where the platform's registry file may lie.
pub open spec fn registry_candidates(home: Seq<char>) -> Seq<Seq<char>> {
    seq![
        home + "/.steam/registry.vdf"@,
        home + "/.steam/steam/registry.vdf"@,
        home + "/.local/share/Steam/registry.vdf"@,
    ]
}

/// The places below the user's home directory to try.
pub fn steam_path_candidates(home: &str) -> (out: Vec<String>)
    ensures
        strings(out@) == home_candidates(home@),
{
    let mut out: Vec<String> = Vec::new();
    out.push(join_path(home, ".steam/steam"));
    out.push(join_path(home, ".steam/root"));
    out.push(join_path(home, ".local/share/Steam"));
    out.push(join_path(home, ".var/app/com.valvesoftware.Steam/.local/share/Steam"));
    out.push(join_path(home, ".var/app/com.valvesoftware.Steam/data/Steam"));
    out.push(join_path(home, "/run/media/mmcblk0p1"));
    assert(strings(out@) =~= home_candidates(home@));
    out
}

/// The places to try on a handheld.
pub fn deck_path_candidates() -> (out: Vec<String>)
    ensures
        strings(out@) == deck_candidates(),
{
    let mut out: Vec<String> = Vec::new();
    out.push("/home/deck/.steam/steam".to_owned());
    out.push("/home/deck/.local/share/Steam".to_owned());
    assert(strings(out@) =~= deck_candidates());
    out
}

/// The places where the registry file may lie.
pub fn registry_file_candidates(home: &str) -> (out: Vec<String>)
    ensures
        strings(out@) == registry_candidates(home@),
{
    let mut out: Vec<String> = Vec::new();
    let mut a = home.to_owned();
    a.append("/.steam/registry.vdf");
    out.push(a);
    let mut b = home.to_owned();
    b.append("/.steam/steam/registry.vdf");
    out.push(b);
    let mut c = home.to_owned();
    c.append("/.local/share/Steam/registry.vdf");
    out.push(c);
    assert(strings(out@) =~= registry_candidates(home@));
    out
}

/// The installation paths that a registry names: the platform's path, and its
/// install path if that is another one.
pub open spec fn registry_paths(steam_path: Option<Seq<char>>, install_path: Option<Seq<char>>) -> Seq<
    Seq<char>,
> {
    let first = match steam_path {
        Some(p) => seq![p],
        None => Seq::empty(),
    };
    match install_path {
        Some(p) => if first.contains(p) {
            first
        } else {
            first.push(p)
        },
        None => first,
    }
}

/// The installation paths that the registry text `content` names, each as the
/// regular expression for it finds it.
pub open spec fn registry_paths_of(content: Seq<char>) -> Seq<Seq<char>> {
    registry_paths(
        regex_first_capture("\"SteamPath\"\\s+\"([^\"]+)\""@, content),
        regex_first_capture("\"InstallPath\"\\s+\"([^\"]+)\""@, content),
    )
}

/// The installation paths that a registry names.
pub fn registry_paths_from(steam_path: Option<String>, install_path: Option<String>) -> (out: Vec<
    String,
>)
    ensures
        strings(out@) == registry_paths(
            crate::manifest::opt_text(steam_path),
            crate::manifest::opt_text(install_path),
        ),
{
    let mut out: Vec<String> = Vec::new();
    assert(strings(out@) =~= Seq::<Seq<char>>::empty());
    match steam_path {
        Some(p) => {
            out.push(p);
            assert(strings(out@) =~= seq![p@]);
        },
        None => {},
    }
    match install_path {
        Some(p) => {
            if !crate::text::holds(&out, p.as_str()) {
                let ghost before = strings(out@);
                out.push(p);
                assert(strings(out@) =~= before.push(p@));
            }
        },
        None => {},
    }
    out
}

/// The installation paths that the registry text `content` names.
pub fn read_steam_registry(content: &str) -> (out: Vec<String>)
    ensures
        strings(out@) == registry_paths_of(content@),
{
    let steam_path = first_capture("\"SteamPath\"\\s+\"([^\"]+)\"", content);
    let install_path = first_capture("\"InstallPath\"\\s+\"([^\"]+)\"", content);
    registry_paths_from(steam_path, install_path)
}

/// The installation paths that the first of the registry texts, from `from`
/// on, names that names any.
pub open spec fn first_registry_paths(texts: Seq<Seq<char>>, from: int) -> Seq<Seq<char>>
    decreases texts.len() - from,
{
    if from < 0 || from >= texts.len() {
        Seq::empty()
    } else if registry_paths_of(texts[from]).len() > 0 {
        registry_paths_of(texts[from])
    } else {
        first_registry_paths(texts, from + 1)
    }
}

/// The first list, from `from` on, that is not empty; the empty list if all are.
pub open spec fn first_filled(lists: Seq<Seq<Seq<char>>>, from: int) -> Seq<Seq<char>>
    decreases lists.len() - from,
{
    if from < 0 || from >= lists.len() {
        Seq::empty()
    } else if lists[from].len() > 0 {
        lists[from]
    } else {
        first_filled(lists, from + 1)
    }
}

/// The lists of `v` as plain values.
pub open spec fn list_views(v: Seq<Vec<String>>) -> Seq<Seq<Seq<char>>> {
    Seq::new(v.len(), |i: int| strings(v[i]@))
}

/// The installation paths that count, given what each registry file names, in
/// the order of the files' places: the paths of the first file that names any.
pub fn first_named(lists: &Vec<Vec<String>>) -> (out: Vec<String>)
    ensures
        strings(out@) == first_filled(list_views(lists@), 0),
{
    let mut k: usize = 0;
    while k < lists.len()
        invariant
            k <= lists.len(),
            first_filled(list_views(lists@), 0) == first_filled(list_views(lists@), k as int),
        decreases lists.len() - k,
    {
        assert(list_views(lists@)[k as int] == strings(lists[k as int]@));
        if lists[k].len() > 0 {
            return crate::text::copy_texts(&lists[k]);
        }
        k += 1;
    }
    let out: Vec<String> = Vec::new();
    assert(strings(out@) =~= Seq::<Seq<char>>::empty());
    out
}

/// What each of the registry texts names, in order.
pub open spec fn registry_lists(texts: Seq<Seq<char>>) -> Seq<Seq<Seq<char>>> {
    Seq::new(texts.len(), |i: int| registry_paths_of(texts[i]))
}

/// The first list that is not empty among what the registry texts name is what
/// the first text that names any path names.
pub proof fn first_filled_is_first_registry(texts: Seq<Seq<char>>, from: int)
    requires
        0 <= from,
    ensures
        first_filled(registry_lists(texts), from) == first_registry_paths(texts, from),
    decreases texts.len() - from,
{
    if from < texts.len() {
        first_filled_is_first_registry(texts, from + 1);
    }
}

/// The installation paths that the registry names, given the texts of the
/// registry files that could be read, in the order of their places: those of the
/// first text that names any, and none if no text does.
pub fn registry_paths_among(texts: &Vec<String>) -> (out: Vec<String>)
    ensures
        strings(out@) == first_registry_paths(strings(texts@), 0),
{
    let mut lists: Vec<Vec<String>> = Vec::new();
    let mut k: usize = 0;
    while k < texts.len()
        invariant
            k <= texts.len(),
            list_views(lists@) == registry_lists(strings(texts@)).take(k as int),
        decreases texts.len() - k,
    {
        assert(strings(texts@)[k as int] == texts[k as int]@);
        let paths = read_steam_registry(texts[k].as_str());
        let ghost before = list_views(lists@);
        let ghost named = strings(paths@);
        lists.push(paths);
        assert(list_views(lists@) =~= before.push(named));
        k += 1;
        assert(registry_lists(strings(texts@)).take(k as int) =~= before.push(named));
    }
    proof {
        assert(registry_lists(strings(texts@)).take(texts.len() as int) == registry_lists(
            strings(texts@),
        ));
        first_filled_is_first_registry(strings(texts@), 0);
    }
    first_named(&lists)
}

/// `base` followed by those of the first `k` items of `more` that are not in
/// it yet, each once.
pub open spec fn extended(base: Seq<Seq<char>>, more: Seq<Seq<char>>, k: int) -> Seq<Seq<char>>
    decreases k,
{
    if k <= 0 {
        base
    } else if extended(base, more, k - 1).contains(more[k - 1]) {
        extended(base, more, k - 1)
    } else {
        extended(base, more, k - 1).push(more[k - 1])
    }
}

/// Appends to `paths` the items of `more` that it does not hold yet.
pub fn extend_unique(paths: &mut Vec<String>, more: &Vec<String>)
    ensures
        strings(final(paths)@) == extended(strings(old(paths)@), strings(more@), more@.len() as int),
{
    let mut k: usize = 0;
    while k < more.len()
        invariant
            k <= more.len(),
            strings(paths@) == extended(strings(old(paths)@), strings(more@), k as int),
        decreases more.len() - k,
    {
        assert(strings(more@)[k as int] == more[k as int]@);
        if !crate::text::holds(paths, more[k].as_str()) {
            let ghost before = strings(paths@);
            paths.push(more[k].clone());
            assert(strings(paths@) =~= before.push(more[k as int]@));
        }
        k += 1;
    }
}

/// The places to search for libraries, given those of the candidates that
/// exist: the places below the home directory as they are, then the places on a
/// handheld and the places from the registry that are not among them yet.
pub fn get_default_steam_paths(
    home_found: &Vec<String>,
    deck_found: &Vec<String>,
    registry_found: &Vec<String>,
) -> (out: Vec<String>)
    ensures
        strings(out@) == extended(
            extended(strings(home_found@), strings(deck_found@), deck_found@.len() as int),
            strings(registry_found@),
            registry_found@.len() as int,
        ),
{
    let mut out = crate::text::copy_texts(home_found);
    extend_unique(&mut out, deck_found);
    extend_unique(&mut out, registry_found);
    out
}

/// The library roots that a library descriptor file names: for each match of
/// the expression for a library path, in order, the directory `steamapps` in it.
pub open spec fn library_roots(paths: Seq<Seq<char>>) -> Seq<Seq<char>> {
    Seq::new(paths.len(), |i: int| joined(paths[i], "steamapps"@))
}

/// The library roots that the text `content` of a library descriptor file names.
pub open spec fn library_roots_of(content: Seq<char>) -> Seq<Seq<char>> {
    library_roots(regex_all_captures("\"path\"\\s+\"([^\"]+)\""@, content))
}

/// The directory `steamapps` in each of `paths`.
pub fn library_roots_from(paths: &Vec<String>) -> (out: Vec<String>)
    ensures
        strings(out@) == library_roots(strings(paths@)),
{
    let mut out: Vec<String> = Vec::new();
    let mut k: usize = 0;
    while k < paths.len()
        invariant
            k <= paths.len(),
            strings(out@) == library_roots(strings(paths@)).take(k as int),
        decreases paths.len() - k,
    {
        let ghost before = strings(out@);
        let root = join_path(paths[k].as_str(), "steamapps");
        out.push(root);
        assert(strings(out@) =~= before.push(joined(paths[k as int]@, "steamapps"@)));
        k += 1;
        assert(library_roots(strings(paths@)).take(k as int) =~= before.push(
            joined(paths[k - 1]@, "steamapps"@),
        ));
    }
    assert(library_roots(strings(paths@)).take(paths.len() as int) == library_roots(
        strings(paths@),
    ));
    out
}

/// The library roots that the text of a library descriptor file names.
pub fn parse_library_folders_vdf(content: &str) -> (out: Vec<String>)
    ensures
        strings(out@) == library_roots_of(content@),
{
    let paths = all_captures("\"path\"\\s+\"([^\"]+)\"", content);
    library_roots_from(&paths)
}

/// The two places where the library descriptor file of the root `steamapps` may lie.
pub fn library_vdf_candidates(steamapps: &str) -> (out: Vec<String>)
    ensures
        strings(out@) == seq![
            joined(steamapps@, "libraryfolders.vdf"@),
            joined(steamapps@, "config/libraryfolders.vdf"@),
        ],
{
    let mut out: Vec<String> = Vec::new();
    out.push(join_path(steamapps, "libraryfolders.vdf"));
    out.push(join_path(steamapps, "config/libraryfolders.vdf"));
    assert(strings(out@) =~= seq![
        joined(steamapps@, "libraryfolders.vdf"@),
        joined(steamapps@, "config/libraryfolders.vdf"@),
    ]);
    out
}

/// The library roots that the texts of library descriptor files name, in order.
pub fn roots_named_by(descriptors: &Vec<String>) -> (named: Vec<String>)
    ensures
        strings(named@) == named_roots(strings(descriptors@), descriptors@.len() as int),
{
    let mut named: Vec<String> = Vec::new();
    let mut k: usize = 0;
    assert(strings(named@) =~= Seq::<Seq<char>>::empty());
    while k < descriptors.len()
        invariant
            k <= descriptors.len(),
            strings(named@) == named_roots(strings(descriptors@), k as int),
        decreases descriptors.len() - k,
    {
        let roots = parse_library_folders_vdf(descriptors[k].as_str());
        assert(strings(descriptors@)[k as int] == descriptors[k as int]@);
        let ghost before = strings(named@);
        let mut j: usize = 0;
        assert(strings(named@) =~= before + strings(roots@).take(0));
        while j < roots.len()
            invariant
                j <= roots.len(),
                strings(named@) == before + strings(roots@).take(j as int),
            decreases roots.len() - j,
        {
            let ghost mid = strings(named@);
            named.push(roots[j].clone());
            assert(strings(named@) =~= mid.push(roots[j as int]@));
            j += 1;
            assert(strings(roots@).take(j as int) =~= strings(roots@).take(j - 1).push(
                roots[j - 1]@,
            ));
        }
        assert(strings(roots@).take(roots.len() as int) == strings(roots@));
        k += 1;
    }
    named
}

/// The places to look at first for the base path `base`.
pub open spec fn base_probes(base: Seq<char>) -> Seq<Seq<char>> {
    seq![
        joined(base, "steamapps"@),
        joined(base, "steam/steamapps"@),
        joined(base, "Steam/steamapps"@),
    ]
}

/// The places to look at first for all of `bases`, those of the first base first.
pub open spec fn first_probes(bases: Seq<Seq<char>>) -> Seq<Seq<char>>
    decreases bases.len(),
{
    if bases.len() == 0 {
        Seq::empty()
    } else {
        first_probes(bases.drop_last()) + base_probes(bases.last())
    }
}

/// A search for library roots: the roots found, and the places still to look at.
#[derive(Debug, Clone)]
pub struct LibrarySearch {
    found: Vec<String>,
    pending: Vec<String>,
}

/// A search as plain values. The place to look at next is the first one pending.
pub struct SearchView {
    pub found: Seq<Seq<char>>,
    pub pending: Seq<Seq<char>>,
}

impl View for LibrarySearch {
    type V = SearchView;

    closed spec fn view(&self) -> SearchView {
        SearchView { found: strings(self.found@), pending: strings(self.pending@).reverse() }
    }
}

impl SearchView {
    /// No root was found twice.
    pub open spec fn valid(self) -> bool {
        self.found.no_duplicates()
    }
}

/// Turns `v` round.
fn reversed(v: Vec<String>) -> (out: Vec<String>)
    ensures
        strings(out@) == strings(v@).reverse(),
{
    let mut out: Vec<String> = Vec::new();
    let mut k: usize = v.len();
    while k > 0
        invariant
            k <= v.len(),
            out.len() == v.len() - k,
            forall|i: int| 0 <= i < out.len() ==> out[i]@ == v[v.len() - 1 - i]@,
        decreases k,
    {
        out.push(v[k - 1].clone());
        k -= 1;
    }
    assert(strings(out@) =~= strings(v@).reverse());
    out
}

/// Begins the search for library roots from the base paths.
pub fn find_steam_libraries(base_paths: &Vec<String>) -> (search: LibrarySearch)
    ensures
        search@.valid(),
        search@.found == Seq::<Seq<char>>::empty(),
        search@.pending == first_probes(strings(base_paths@)),
{
    let mut probes: Vec<String> = Vec::new();
    let mut k: usize = 0;
    assert(strings(base_paths@).take(0) =~= Seq::<Seq<char>>::empty());
    assert(strings(probes@) =~= Seq::<Seq<char>>::empty());
    while k < base_paths.len()
        invariant
            k <= base_paths.len(),
            strings(probes@) == first_probes(strings(base_paths@).take(k as int)),
        decreases base_paths.len() - k,
    {
        let base = &base_paths[k];
        let ghost before = strings(probes@);
        probes.push(join_path(base.as_str(), "steamapps"));
        probes.push(join_path(base.as_str(), "steam/steamapps"));
        probes.push(join_path(base.as_str(), "Steam/steamapps"));
        proof {
            let done = strings(base_paths@).take(k + 1);
            assert(done.drop_last() == strings(base_paths@).take(k as int));
            assert(done.last() == base@);
            assert(strings(probes@) =~= before + base_probes(base@));
        }
        k += 1;
    }
    assert(strings(base_paths@).take(base_paths.len() as int) == strings(base_paths@));
    let ghost all = strings(probes@);
    let pending = reversed(probes);
    let search = LibrarySearch { found: Vec::new(), pending };
    assert(strings(search.found@) =~= Seq::<Seq<char>>::empty());
    assert(all.reverse().reverse() =~= all);
    search
}

impl LibrarySearch {
    /// Takes the next place to look at, if one is pending.
    pub fn next_probe(&mut self) -> (probe: Option<String>)
        ensures
            final(self)@.found == old(self)@.found,
            match probe {
                Some(p) => old(self)@.pending.len() > 0 && p@ == old(self)@.pending[0] && final(self)@.pending == old(self)@.pending.drop_first(),
                None => old(self)@.pending.len() == 0 && final(self)@ == old(self)@,
            },
    {
        let ghost before = strings(self.pending@);
        match self.pending.pop() {
            Some(p) => {
                proof {
                    assert(strings(self.pending@) =~= before.drop_last());
                    assert(before.reverse()[0] == before.last());
                    assert(before.drop_last().reverse() =~= before.reverse().drop_first());
                }
                Some(p)
            },
            None => None,
        }
    }

    /// Takes in that the place `root`, by its canonical path, is a library
    /// root, and the roots that the library descriptor files in it name. A
    /// root that was found before changes nothing: this is what ends a search
    /// through descriptors that name each other. A new root is kept, and the
    /// roots that its descriptors name are looked at next, in their order.
    pub fn report_roots(&mut self, root: &str, named: &Vec<String>) -> (fresh: bool)
        ensures
            old(self)@.valid() ==> final(self)@.valid(),
            fresh == !old(self)@.found.contains(root@),
            !fresh ==> final(self)@ == old(self)@,
            fresh ==> final(self)@.found == old(self)@.found.push(root@) && final(self)@.pending
                == strings(named@) + old(self)@.pending,
    {
        if crate::text::holds(&self.found, root) {
            return false;
        }
        let ghost found_before = strings(self.found@);
        self.found.push(root.to_owned());
        assert(strings(self.found@) =~= found_before.push(root@));
        let ghost pending_before = strings(self.pending@);
        let ghost named_all = strings(named@);
        let mut i: usize = named.len();
        while i > 0
            invariant
                i <= named.len(),
                strings(named@) == named_all,
                strings(self.found@) == found_before.push(root@),
                strings(self.pending@) == pending_before + named_all.skip(i as int).reverse(),
            decreases i,
        {
            let ghost mid = strings(self.pending@);
            self.pending.push(named[i - 1].clone());
            assert(strings(self.pending@) =~= mid.push(named[i - 1]@));
            i -= 1;
            assert(named_all.skip(i as int).reverse() =~= named_all.skip(i + 1).reverse().push(
                named_all[i as int],
            ));
        }
        assert(named_all.skip(0) == named_all);
        assert((pending_before + named_all.reverse()).reverse() =~= named_all
            + pending_before.reverse());
        true
    }

    /// Takes in that the place `root`, by its canonical path, is a library
    /// root, and the texts of the library descriptor files that lie in it: the
    /// roots that the texts name are read out and taken in with the root.
    pub fn report(&mut self, root: &str, descriptors: &Vec<String>) -> (fresh: bool)
        ensures
            old(self)@.valid() ==> final(self)@.valid(),
            fresh == !old(self)@.found.contains(root@),
            !fresh ==> final(self)@ == old(self)@,
            fresh ==> final(self)@.found == old(self)@.found.push(root@) && final(self)@.pending
                == named_roots(strings(descriptors@), descriptors@.len() as int) + old(self)@.pending,
    {
        let named = roots_named_by(descriptors);
        self.report_roots(root, &named)
    }

    /// Whether nothing is left to look at.
    pub fn is_done(&self) -> (r: bool)
        ensures
            r == (self@.pending.len() == 0),
    {
        self.pending.len() == 0
    }

    /// The library roots found, in the order in which they were found.
    pub fn libraries(&self) -> (out: Vec<String>)
        ensures
            strings(out@) == self@.found,
    {
        crate::text::copy_texts(&self.found)
    }
}

/// The library roots that the first `k` of the descriptor texts name, in order.
pub open spec fn named_roots(descriptors: Seq<Seq<char>>, k: int) -> Seq<Seq<char>>
    decreases k,
{
    if k <= 0 {
        Seq::empty()
    } else {
        named_roots(descriptors, k - 1) + library_roots_of(descriptors[k - 1])
    }
}

/// One library root of a disk: its canonical path, and the roots that the
/// library descriptor files in it name.
#[derive(Debug, Clone)]
pub struct LibraryDir {
    pub path: String,
    pub named: Vec<String>,
}

impl View for LibraryDir {
    type V = DirView;

    open spec fn view(&self) -> DirView {
        DirView { path: self.path@, named: strings(self.named@) }
    }
}

/// The library roots of `v` as plain values.
pub open spec fn dir_views(v: Seq<LibraryDir>) -> Seq<DirView> {
    Seq::new(v.len(), |i: int| v[i]@)
}

/// The first entry of `dirs` for the path `path`, by its place.
pub fn find_dir(dirs: &Vec<LibraryDir>, path: &str) -> (found: Option<usize>)
    ensures
        match found {
            Some(i) => entry_for(dir_views(dirs@), path@, 0) == Some(i as int) && i < dirs.len(),
            None => entry_for(dir_views(dirs@), path@, 0) is None,
        },
{
    let mut i: usize = 0;
    while i < dirs.len()
        invariant
            i <= dirs.len(),
            entry_for(dir_views(dirs@), path@, 0) == entry_for(dir_views(dirs@), path@, i as int),
        decreases dirs.len() - i,
    {
        assert(dir_views(dirs@)[i as int] == dirs[i as int]@);
        if crate::text::str_eq(dirs[i].path.as_str(), path) {
            return Some(i);
        }
        i += 1;
    }
    None
}

/// Carries a whole search out on a disk of which every library root is known:
/// from the base paths it looks at place after place until none is left, and
/// gives the roots found, in the order in which they were found. The search
/// ends however the roots name each other.
pub fn search_libraries(base_paths: &Vec<String>, dirs: &Vec<LibraryDir>) -> (out: Vec<String>)
    ensures
        strings(out@) == search_from(world_of(dir_views(dirs@)), first_probes(strings(base_paths@))),
        strings(out@).no_duplicates(),
{
    let ghost world = world_of(dir_views(dirs@));
    let mut search = find_steam_libraries(base_paths);
    let ghost goal = searched(world, search@);
    proof {
        world_is_finite(dir_views(dirs@));
    }
    while !search.is_done()
        invariant
            world == world_of(dir_views(dirs@)),
            world.dom().finite(),
            searched(world, search@) == goal,
        decreases unfound(world, search@.found), search@.pending.len(),
    {
        let ghost before = search@;
        proof {
            search_goes_on(world, before);
            step_gets_closer(world, before);
            world_is_finite(dir_views(dirs@));
        }
        match search.next_probe() {
            Some(p) => {
                proof {
                    entry_is_first(dir_views(dirs@), p@, 0);
                }
                match find_dir(dirs, p.as_str()) {
                    Some(i) => {
                        assert(dir_views(dirs@)[i as int] == dirs[i as int]@);
                        assert(world.dom().contains(p@));
                        assert(world[p@] == strings(dirs[i as int].named@));
                        search.report_roots(p.as_str(), &dirs[i].named);
                    },
                    None => {
                        assert(!world.dom().contains(p@));
                    },
                }
            },
            None => {},
        }
        assert(search@ == step(world, before));
    }
    proof {
        search_finds_each_root_once(world, first_probes(strings(base_paths@)));
    }
    search.libraries()
}

} // verus!
