use creamlinux::classify::{
    check_creamlinux_installed, check_smokeapi_installed, is_elf_binary, looks_at, needs_head,
    scan_game_directory, skips_directory, FileEntry, ScanState, MAX_SCAN_DEPTH,
};

const ELF: [u8; 4] = [0x7F, b'E', b'L', b'F'];

fn entry(path: &str, executable: bool, head: &[u8]) -> FileEntry {
    FileEntry { rel_path: path.to_string(), executable, head: head.to_vec() }
}

fn names(v: &[&str]) -> Vec<String> {
    v.iter().map(|s| s.to_string()).collect()
}

#[test]
fn a_lone_elf_executable_makes_a_title_native() {
    let files = vec![entry("game", true, &ELF)];
    let (native, api_files) = scan_game_directory(&files);
    assert!(native);
    assert!(api_files.is_empty());
    let mut state = ScanState::new();
    state.observe(&files[0]);
    assert!(state.found_native);
    assert!(!state.found_foreign);
    assert!(state.is_native());
}

#[test]
fn elf_magic_is_four_bytes() {
    assert!(is_elf_binary(&ELF.to_vec()));
    assert!(is_elf_binary(&vec![0x7F, b'E', b'L', b'F', 2]));
    assert!(!is_elf_binary(&vec![0x7F, b'E', b'L']));
    assert!(!is_elf_binary(&vec![0x7E, b'E', b'L', b'F']));
    assert!(!is_elf_binary(&vec![b'M', b'Z', 0, 0]));
    assert!(!is_elf_binary(&Vec::new()));
}

#[test]
fn files_without_the_signs_leave_a_title_unclassified() {
    let files = vec![
        entry("game", false, &ELF),
        entry("script", true, b"#!/b"),
        entry("data/readme.txt", false, &[]),
        entry(".hidden", true, &ELF),
    ];
    let (native, api_files) = scan_game_directory(&files);
    assert!(native);
    assert!(api_files.is_empty());
    let (native, _) = scan_game_directory(&files[..3].to_vec());
    assert!(!native);
    assert_eq!(scan_game_directory(&Vec::new()), (false, Vec::new()));
}

#[test]
fn foreign_files_overrule_native_ones() {
    let files = vec![entry("lib/libgame.so", false, &[]), entry("Game.EXE", false, &[])];
    let (native, _) = scan_game_directory(&files);
    assert!(!native);
    for name in ["a.exe", "a.bat", "a.cmd", "a.msi", "a.Msi"] {
        let mut state = ScanState::new();
        state.observe(&entry(name, false, &[]));
        assert!(state.found_foreign);
        assert!(!state.found_native);
    }
    for name in ["a.so", "a.bin", "a.sh", "a.x86", "a.x86_64", "a.X86_64"] {
        let mut state = ScanState::new();
        state.observe(&entry(name, false, &[]));
        assert!(state.found_native);
        assert!(!state.found_foreign);
    }
}

#[test]
fn shim_binaries_are_collected_in_order() {
    let files = vec![
        entry("bin/Steam_API64.dll", false, &[]),
        entry("bin/other.dll", false, &[]),
        entry("steam_api.dll", false, &[]),
        entry("steam_api_o.dll", false, &[]),
    ];
    let (native, api_files) = scan_game_directory(&files);
    assert!(!native);
    assert_eq!(api_files, names(&["bin/Steam_API64.dll", "steam_api.dll"]));
}

#[test]
fn the_scan_stops_looking_once_it_is_settled() {
    let files = vec![
        entry("game.exe", false, &[]),
        entry("lib.so", false, &[]),
        entry("steam_api.dll", false, &[]),
        entry("bin/steam_api64.dll", false, &[]),
    ];
    let (native, api_files) = scan_game_directory(&files);
    assert!(!native);
    assert_eq!(api_files, names(&["steam_api.dll"]));
    let mut state = ScanState::new();
    assert!(!state.is_settled());
    for f in &files[..2] {
        state.observe(f);
    }
    assert!(!state.is_settled());
    state.observe(&files[2]);
    assert!(state.is_settled());
}

#[test]
fn directories_without_code_are_skipped() {
    for name in [
        "videos", "video", "movies", "movie", "sound", "sounds", "audio", "textures", "music",
        "localization", "shaders", "logs", "Videos", "LOGS",
    ] {
        assert!(skips_directory(name));
    }
    assert!(!skips_directory("bin"));
    assert!(!skips_directory("video_player"));
    assert!(!skips_directory(""));
}

#[test]
fn only_executables_without_extension_are_opened() {
    assert!(needs_head("bin/game", true));
    assert!(needs_head(".config", true));
    assert!(!needs_head("bin/game", false));
    assert!(!needs_head("bin/game.so", true));
    assert!(!needs_head("game.x86_64", true));
}

#[test]
fn the_content_unlocker_is_known_by_its_markers() {
    assert!(check_creamlinux_installed(&names(&["game", "cream.sh"])));
    assert!(check_creamlinux_installed(&names(&["cream_api.ini"])));
    assert!(check_creamlinux_installed(&names(&["a", "b", "cream_api.so"])));
    assert!(!check_creamlinux_installed(&names(&["lib64Creamlinux.so", "Cream.sh"])));
    assert!(!check_creamlinux_installed(&Vec::new()));
}

#[test]
fn the_api_shim_is_known_by_a_backup() {
    let api = names(&["steam_api.dll", "bin/steam_api64.dll"]);
    assert!(check_smokeapi_installed("/g", &api, &names(&["/g/bin/steam_api64_o.dll"])));
    assert!(check_smokeapi_installed("/g", &api, &names(&["/x", "/g/steam_api_o.dll"])));
    assert!(!check_smokeapi_installed("/g", &api, &names(&["/g/steam_api.dll"])));
    assert!(!check_smokeapi_installed("/g", &api, &Vec::new()));
    assert!(!check_smokeapi_installed("/g", &Vec::new(), &names(&["/g/steam_api_o.dll"])));
}

#[test]
fn the_scan_goes_eight_levels_deep() {
    assert_eq!(MAX_SCAN_DEPTH, 8);
    assert!(looks_at("game"));
    assert!(looks_at("a/b/c/d/e/f/g/game"));
    assert!(!looks_at("a/b/c/d/e/f/g/h/game"));
    assert!(!looks_at("a/b/c/d/e/f/g/h/i/j/game"));
    assert!(looks_at(""));
    let deep = vec![entry("a/b/c/d/e/f/g/h/game.exe", false, &[]), entry("a/b/game", true, &ELF)];
    assert_eq!(scan_game_directory(&deep), (true, Vec::new()));
}

#[test]
fn files_in_skipped_directories_are_not_looked_at() {
    assert!(!looks_at("videos/intro.exe"));
    assert!(!looks_at("data/Movies/x/setup.exe"));
    assert!(!looks_at("assets/audio/tool.exe"));
    assert!(looks_at("assets/tool.exe"));
    assert!(looks_at("videos"));
    assert!(looks_at("bin/videos"));
    assert!(looks_at("my videos/x"));
    let files =
        vec![entry("logs/crash.exe", false, &[]), entry("Sound/steam_api.dll", false, &[]), entry("lib.so", false, &[])];
    assert_eq!(scan_game_directory(&files), (true, Vec::new()));
}
