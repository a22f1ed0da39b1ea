use creamlinux::file_ops::replace_extension;
use creamlinux::paths::{
    backup_name_of, extension_of, file_name_of, join_path, parent_of, sibling_of,
};

#[test]
fn joining_paths() {
    assert_eq!(join_path("/games/x", "bin/steam_api.dll"), "/games/x/bin/steam_api.dll");
    assert_eq!(join_path("/games/x/", "a"), "/games/x/a");
    assert_eq!(join_path("/games/x", "/abs"), "/abs");
    assert_eq!(join_path("", "rel"), "rel");
    assert_eq!(join_path("/games/x", ""), "/games/x/");
}

#[test]
fn joining_agrees_with_the_standard_library() {
    for (base, name) in [("/a/b", "c"), ("/a/b/", "c/d"), ("/a", "/x"), ("", "y"), ("rel", "z")] {
        let want = std::path::Path::new(base).join(name);
        assert_eq!(join_path(base, name), want.to_string_lossy());
    }
}

#[test]
fn last_component_and_directory() {
    assert_eq!(file_name_of("bin/win64/steam_api64.dll"), "steam_api64.dll");
    assert_eq!(file_name_of("steam_api.dll"), "steam_api.dll");
    assert_eq!(file_name_of("dir/"), "");
    assert_eq!(parent_of("/games/x/bin/steam_api.dll"), "/games/x/bin");
    assert_eq!(parent_of("/top"), "/");
    assert_eq!(parent_of("plain"), "");
}

#[test]
fn extensions() {
    assert_eq!(extension_of("game.exe"), Some("exe".to_string()));
    assert_eq!(extension_of("archive.tar.gz"), Some("gz".to_string()));
    assert_eq!(extension_of("noext"), None);
    assert_eq!(extension_of(".hidden"), None);
    assert_eq!(extension_of("dot."), Some("".to_string()));
    for name in ["a.b", "x", ".profile", "lib.so.1", "end.", "UP.EXE"] {
        let want = std::path::Path::new(name)
            .extension()
            .map(|e| e.to_string_lossy().to_string());
        assert_eq!(extension_of(name), want);
    }
}

#[test]
fn backup_names_replace_the_extension() {
    assert_eq!(backup_name_of("steam_api.dll"), Some("steam_api_o.dll".to_string()));
    assert_eq!(backup_name_of("steam_api64.dll"), Some("steam_api64_o.dll".to_string()));
    assert_eq!(backup_name_of("STEAM_API.DLL"), Some("STEAM_API_o.DLL".to_string()));
    assert_eq!(backup_name_of("Steam_Api64.Dll"), Some("Steam_Api64_o.Dll".to_string()));
    assert_eq!(backup_name_of("steam_api.so"), None);
    assert_eq!(backup_name_of("dll"), None);
    assert_eq!(backup_name_of(".dll"), Some("_o.dll".to_string()));
}

#[test]
fn replacing_an_extension() {
    assert_eq!(replace_extension("/a/file.txt", "bak"), "/a/file.bak");
    assert_eq!(replace_extension("/a/file", "bak"), "/a/file.bak");
    assert_eq!(replace_extension("/a/.hidden", "bak"), "/a/.hidden.bak");
    assert_eq!(replace_extension("/a/b.tar.gz", "bak"), "/a/b.tar.bak");
    assert_eq!(replace_extension("/a/", "bak"), "/a/");
}

#[test]
fn a_sibling_lies_in_the_same_directory() {
    assert_eq!(sibling_of("/g/bin/steam_api.dll", "steam_api_o.dll"), "/g/bin/steam_api_o.dll");
    assert_eq!(sibling_of("steam_api.dll", "x"), "x");
    assert_eq!(sibling_of("/steam_api.dll", "x"), "/x");
    assert_eq!(sibling_of("/g//steam_api.dll", "x"), "/g//x");
}
