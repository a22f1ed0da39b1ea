//! What the files of a title's directory say about the title: whether it is a
//! native one, which of its binaries the api shim can replace, and whether an
//! unlocker is applied already.

use vstd::prelude::*;
use crate::paths::{extension, extension_of, file_name, file_name_of};
use crate::shim::{shim_target, target_of};
use crate::text::{
    chars_of, first_index, first_index_unique, holds, lower, lowered, slice_of, strings, text_is,
};

verus! {

/// One regular file of a title.
#[derive(Debug, Clone)]
pub struct FileEntry {
    /// The file's path, relative to the title's directory.
    pub rel_path: String,
    /// Whether anybody may execute the file.
    pub executable: bool,
    /// The first bytes of the file, four at most; empty where they were not read.
    pub head: Vec<u8>,
}

/// A file as plain values.
pub struct EntryView {
    pub rel_path: Seq<char>,
    pub executable: bool,
    pub head: Seq<u8>,
}

impl View for FileEntry {
    type V = EntryView;

    open spec fn view(&self) -> EntryView {
        EntryView { rel_path: self.rel_path@, executable: self.executable, head: self.head@ }
    }
}

/// The files of `v` as plain values.
pub open spec fn entry_views(v: Seq<FileEntry>) -> Seq<EntryView> {
    Seq::new(v.len(), |i: int| v[i]@)
}

/// What a scan has seen so far.
#[derive(Debug, Clone)]
pub struct ScanState {
    /// A file for another platform was seen.
    pub found_foreign: bool,
    /// A file for this platform was seen.
    pub found_native: bool,
    /// The binaries that the api shim can replace, in the order they were seen.
    pub api_files: Vec<String>,
}

/// A scan state as plain values.
pub struct ScanView {
    pub found_foreign: bool,
    pub found_native: bool,
    pub api_files: Seq<Seq<char>>,
}

impl View for ScanState {
    type V = ScanView;

    open spec fn view(&self) -> ScanView {
        ScanView {
            found_foreign: self.found_foreign,
            found_native: self.found_native,
            api_files: strings(self.api_files@),
        }
    }
}

/// The bytes begin with the ELF magic number: 0x7F and the letters `ELF`.
pub open spec fn has_elf_magic(head: Seq<u8>) -> bool {
    head.len() >= 4 && head[0] == 0x7F && head[1] == 0x45 && head[2] == 0x4C && head[3] == 0x46
}

/// The extension, whatever its case, marks a file for another platform.
pub open spec fn is_foreign_extension(ext: Seq<char>) -> bool {
    lower(ext) == "exe"@ || lower(ext) == "bat"@ || lower(ext) == "cmd"@ || lower(ext) == "msi"@
}

/// The extension, whatever its case, marks a file for this platform.
pub open spec fn is_native_extension(ext: Seq<char>) -> bool {
    lower(ext) == "so"@ || lower(ext) == "bin"@ || lower(ext) == "sh"@ || lower(ext) == "x86"@
        || lower(ext) == "x86_64"@
}

/// The file name, whatever its case, is that of a binary the api shim can replace.
pub open spec fn is_shim_binary(name: Seq<char>) -> bool {
    match extension(name) {
        Some(ext) => lower(ext) == "dll"@ && (lower(name) == "steam_api.dll"@ || lower(name)
            == "steam_api64.dll"@),
        None => false,
    }
}

/// The directory name, whatever its case, is one that holds no code and is not
/// looked into.
pub open spec fn is_skipped_directory(name: Seq<char>) -> bool {
    let n = lower(name);
    n == "videos"@ || n == "video"@ || n == "movies"@ || n == "movie"@ || n == "sound"@ || n
        == "sounds"@ || n == "audio"@ || n == "textures"@ || n == "music"@ || n == "localization"@
        || n == "shaders"@ || n == "logs"@ || n == "assets/audio"@ || n == "assets/video"@ || n
        == "assets/textures"@
}

/// How deep below a title's directory files are looked at: a file directly in
/// the directory is at depth 1.
pub const MAX_SCAN_DEPTH: usize = 8;

/// The depth of the file `path` below the directory it is relative to: one more
/// than the number of directories it lies in.
pub open spec fn depth(path: Seq<char>) -> nat
    decreases path.len(),
{
    let i = first_index(path, '/');
    if i < 0 || i >= path.len() {
        1
    } else {
        1 + depth(path.skip(i + 1))
    }
}

/// One of the directories that the file `path` lies in is left out of the scan.
pub open spec fn in_skipped_directory(path: Seq<char>) -> bool
    decreases path.len(),
{
    let i = first_index(path, '/');
    if i < 0 || i >= path.len() {
        false
    } else {
        is_skipped_directory(path.take(i)) || in_skipped_directory(path.skip(i + 1))
    }
}

/// The scan looks at the file `path`: it lies no deeper than the scan goes, and
/// in no directory that is left out.
pub open spec fn is_looked_at(path: Seq<char>) -> bool {
    depth(path) <= MAX_SCAN_DEPTH && !in_skipped_directory(path)
}

/// The file is for this platform: by its extension, or, without one, by being
/// executable and beginning with the ELF magic number.
pub open spec fn is_native_file(e: EntryView) -> bool {
    match extension(file_name(e.rel_path)) {
        Some(ext) => is_native_extension(ext),
        None => e.executable && has_elf_magic(e.head),
    }
}

/// The file is for another platform, by its extension.
pub open spec fn is_foreign_file(e: EntryView) -> bool {
    match extension(file_name(e.rel_path)) {
        Some(ext) => is_foreign_extension(ext),
        None => false,
    }
}

impl ScanView {
    /// Before any file was seen.
    pub open spec fn start() -> ScanView {
        ScanView { found_foreign: false, found_native: false, api_files: Seq::empty() }
    }

    /// Files for both platforms and a binary for the shim were seen: no further
    /// file can change the outcome.
    pub open spec fn settled(self) -> bool {
        self.found_foreign && self.found_native && self.api_files.len() > 0
    }

    /// The state after the file `e` was offered: a file that the scan does not
    /// look at changes nothing; of one that it looks at, each sign is taken in,
    /// and a sign once found stays found.
    pub open spec fn seen(self, e: EntryView) -> ScanView {
        if !is_looked_at(e.rel_path) {
            self
        } else {
            ScanView {
                found_foreign: self.found_foreign || is_foreign_file(e),
                found_native: self.found_native || is_native_file(e),
                api_files: if is_shim_binary(file_name(e.rel_path)) {
                    self.api_files.push(e.rel_path)
                } else {
                    self.api_files
                },
            }
        }
    }

    /// The title is native: it has files for this platform and none for another.
    pub open spec fn native(self) -> bool {
        self.found_native && !self.found_foreign
    }
}

/// The state after the first `k` files of `entries` were offered to a scan that
/// stops looking once it is settled.
pub open spec fn scanned(entries: Seq<EntryView>, k: int) -> ScanView
    decreases k,
{
    if k <= 0 {
        ScanView::start()
    } else {
        let before = scanned(entries, k - 1);
        if before.settled() {
            before
        } else {
            before.seen(entries[k - 1])
        }
    }
}

/// Whether the bytes begin with the ELF magic number.
pub fn is_elf_binary(head: &Vec<u8>) -> (r: bool)
    ensures
        r == has_elf_magic(head@),
{
    head.len() >= 4 && head[0] == 0x7F && head[1] == 0x45 && head[2] == 0x4C && head[3] == 0x46
}

/// Whether a directory of this name is left out of the scan.
pub fn skips_directory(name: &str) -> (r: bool)
    ensures
        r == is_skipped_directory(name@),
{
    skips_directory_named(&chars_of(name))
}

/// Whether a directory of this name is left out of the scan.
pub fn skips_directory_named(name: &Vec<char>) -> (r: bool)
    ensures
        r == is_skipped_directory(name@),
{
    let n = lowered(name);
    text_is(&n, "videos") || text_is(&n, "video") || text_is(&n, "movies") || text_is(&n, "movie")
        || text_is(&n, "sound") || text_is(&n, "sounds") || text_is(&n, "audio") || text_is(
        &n,
        "textures",
    ) || text_is(&n, "music") || text_is(&n, "localization") || text_is(&n, "shaders") || text_is(
        &n,
        "logs",
    ) || text_is(&n, "assets/audio") || text_is(&n, "assets/video") || text_is(
        &n,
        "assets/textures",
    )
}

/// Whether the scan looks at the file `rel_path`, a path relative to the
/// title's directory.
pub fn looks_at(rel_path: &str) -> (r: bool)
    ensures
        r == is_looked_at(rel_path@),
{
    let p = chars_of(rel_path);
    let mut start: usize = 0;
    let mut count: usize = 1;
    let mut skipped = false;
    let mut i: usize = 0;
    assert(p@.skip(0) == p@);
    while i < p.len()
        invariant
            p@ == rel_path@,
            start <= i <= p.len(),
            forall|j: int| start <= j < i ==> p@[j] != '/',
            1 <= count <= MAX_SCAN_DEPTH,
            depth(p@) == (count - 1) + depth(p@.skip(start as int)),
            in_skipped_directory(p@) == (skipped || in_skipped_directory(p@.skip(start as int))),
        decreases p.len() - i,
    {
        if p[i] == '/' {
            let dir = slice_of(&p, start, i);
            proof {
                let rest = p@.skip(start as int);
                assert forall|j: int| 0 <= j < i - start implies rest[j] != '/' by {
                    assert(rest[j] == p@[start + j]);
                }
                first_index_unique(rest, '/', i - start);
                assert(rest.take(i - start) == p@.subrange(start as int, i as int));
                assert(rest.skip(i - start + 1) == p@.skip(i + 1));
                assert(depth(rest) == 1 + depth(p@.skip(i + 1)));
                assert(depth(p@.skip(i + 1)) >= 1);
            }
            if count >= MAX_SCAN_DEPTH {
                return false;
            }
            if skips_directory_named(&dir) {
                skipped = true;
            }
            count += 1;
            start = i + 1;
        }
        i += 1;
    }
    proof {
        let rest = p@.skip(start as int);
        assert forall|j: int| 0 <= j < rest.len() implies rest[j] != '/' by {
            assert(rest[j] == p@[start + j]);
        }
        first_index_unique(rest, '/', rest.len() as int);
    }
    !skipped
}

/// Whether the first bytes of a file are needed to classify it: they are for an
/// executable file without an extension, and for no other.
pub fn needs_head(rel_path: &str, executable: bool) -> (r: bool)
    ensures
        r == (executable && extension(file_name(rel_path@)) is None),
{
    let name = file_name_of(rel_path);
    executable && extension_of(name.as_str()).is_none()
}

impl ScanState {
    /// The state before any file was seen.
    pub fn new() -> (s: ScanState)
        ensures
            s@ == ScanView::start(),
    {
        let s = ScanState { found_foreign: false, found_native: false, api_files: Vec::new() };
        assert(strings(s.api_files@) =~= Seq::<Seq<char>>::empty());
        s
    }

    /// Whether no further file can change the outcome.
    pub fn is_settled(&self) -> (r: bool)
        ensures
            r == self@.settled(),
    {
        self.found_foreign && self.found_native && self.api_files.len() > 0
    }

    /// Takes in one file.
    pub fn observe(&mut self, entry: &FileEntry)
        ensures
            final(self)@ == old(self)@.seen(entry@),
    {
        if !looks_at(entry.rel_path.as_str()) {
            return ;
        }
        let name = file_name_of(entry.rel_path.as_str());
        let ghost before = strings(self.api_files@);
        match extension_of(name.as_str()) {
            Some(ext) => {
                let e = lowered(&chars_of(ext.as_str()));
                if text_is(&e, "exe") || text_is(&e, "bat") || text_is(&e, "cmd") || text_is(
                    &e,
                    "msi",
                ) {
                    self.found_foreign = true;
                }
                if text_is(&e, "dll") {
                    let n = lowered(&chars_of(name.as_str()));
                    if text_is(&n, "steam_api.dll") || text_is(&n, "steam_api64.dll") {
                        self.api_files.push(entry.rel_path.clone());
                        assert(strings(self.api_files@) =~= before.push(entry.rel_path@));
                    }
                }
                if text_is(&e, "so") || text_is(&e, "bin") || text_is(&e, "sh") || text_is(
                    &e,
                    "x86",
                ) || text_is(&e, "x86_64") {
                    self.found_native = true;
                }
            },
            None => {
                if entry.executable && is_elf_binary(&entry.head) {
                    self.found_native = true;
                }
            },
        }
    }

    /// Whether the title is native.
    pub fn is_native(&self) -> (r: bool)
        ensures
            r == self@.native(),
    {
        self.found_native && !self.found_foreign
    }
}

/// Classifies a title by its files, offered in the order of the walk: whether it
/// is native, and which of its binaries the api shim can replace. Files behind
/// the point where the scan is settled are not looked at.
pub fn scan_game_directory(entries: &Vec<FileEntry>) -> (r: (bool, Vec<String>))
    ensures
        r.0 == scanned(entry_views(entries@), entries@.len() as int).native(),
        strings(r.1@) == scanned(entry_views(entries@), entries@.len() as int).api_files,
{
    let mut state = ScanState::new();
    let mut i: usize = 0;
    while i < entries.len()
        invariant
            i <= entries.len(),
            state@ == scanned(entry_views(entries@), i as int),
        decreases entries.len() - i,
    {
        if !state.is_settled() {
            state.observe(&entries[i]);
        }
        i += 1;
    }
    let native = state.is_native();
    (native, state.api_files)
}

/// A file directly in the title's directory is looked at.
pub proof fn top_level_is_looked_at(path: Seq<char>)
    requires
        forall|j: int| 0 <= j < path.len() ==> path[j] != '/',
    ensures
        is_looked_at(path),
{
    first_index_unique(path, '/', path.len() as int);
}

/// Whether the content unlocker is applied to a title, given the names of what
/// lies directly in the title's directory: it is if one of its three marker
/// files is there.
pub open spec fn has_cream_marker(root_entries: Seq<Seq<char>>) -> bool {
    root_entries.contains("cream.sh"@) || root_entries.contains("cream_api.ini"@)
        || root_entries.contains("cream_api.so"@)
}

/// Whether the content unlocker is applied to a title, given the names of what
/// lies directly in the title's directory.
pub fn check_creamlinux_installed(root_entries: &Vec<String>) -> (r: bool)
    ensures
        r == has_cream_marker(strings(root_entries@)),
{
    holds(root_entries, "cream.sh") || holds(root_entries, "cream_api.ini") || holds(
        root_entries,
        "cream_api.so",
    )
}

/// One of the binaries `api_files` of the title in `game_path` has its backup
/// among the paths `existing`.
pub open spec fn has_shim_backup(
    game_path: Seq<char>,
    api_files: Seq<Seq<char>>,
    existing: Seq<Seq<char>>,
) -> bool {
    exists|i: int|
        0 <= i < api_files.len() && (#[trigger] target_of(game_path, api_files[i])).backup is Some
            && existing.contains(target_of(game_path, api_files[i]).backup->0)
}

/// Whether the api shim is applied to a title, given the paths that exist on
/// disk: it is if one of the title's binaries has its backup beside it.
pub fn check_smokeapi_installed(game_path: &str, api_files: &Vec<String>, existing: &Vec<String>) -> (r:
    bool)
    ensures
        r == has_shim_backup(game_path@, strings(api_files@), strings(existing@)),
{
    let mut i: usize = 0;
    while i < api_files.len()
        invariant
            i <= api_files.len(),
            forall|j: int|
                0 <= j < i ==> !((#[trigger] target_of(game_path@, strings(api_files@)[j])).backup
                    is Some && strings(existing@).contains(
                    target_of(game_path@, strings(api_files@)[j]).backup->0,
                )),
        decreases api_files.len() - i,
    {
        let t = shim_target(game_path, api_files[i].as_str());
        assert(t@ == target_of(game_path@, strings(api_files@)[i as int]));
        match &t.backup {
            Some(b) => {
                if holds(existing, b.as_str()) {
                    return true;
                }
            },
            None => {},
        }
        i += 1;
    }
    false
}

/// A title whose only file has no extension, may be executed and begins with
/// the ELF magic number is native, and nothing in it is for another platform.
/// The file lies where the scan looks: directly in the title's directory, say.
pub proof fn lone_elf_is_native(e: EntryView)
    requires
        is_looked_at(e.rel_path),
        extension(file_name(e.rel_path)) is None,
        e.executable,
        has_elf_magic(e.head),
    ensures
        scanned(seq![e], 1).native(),
        scanned(seq![e], 1).found_native,
        !scanned(seq![e], 1).found_foreign,
{
    reveal_with_fuel(scanned, 2);
}

} // verus!
