use creamlinux::library::{
    deck_path_candidates, extend_unique, find_steam_libraries, first_named, get_default_steam_paths,
    library_roots_from, library_vdf_candidates, parse_library_folders_vdf, read_steam_registry,
    registry_file_candidates, registry_paths_among, registry_paths_from, roots_named_by,
    search_libraries, steam_path_candidates, LibraryDir,
};

fn names(v: &[&str]) -> Vec<String> {
    v.iter().map(|s| s.to_string()).collect()
}

const VDF: &str = "\"libraryfolders\"\n{\n\t\"0\"\n\t{\n\t\t\"path\"\t\t\"/home/u/.local/share/Steam\"\n\t\t\"label\"\t\t\"\"\n\t}\n\t\"1\"\n\t{\n\t\t\"path\"\t\t\"/mnt/games/SteamLibrary\"\n\t}\n}\n";

#[test]
fn the_places_to_try_first() {
    assert_eq!(
        steam_path_candidates("/home/u"),
        names(&[
            "/home/u/.steam/steam",
            "/home/u/.steam/root",
            "/home/u/.local/share/Steam",
            "/home/u/.var/app/com.valvesoftware.Steam/.local/share/Steam",
            "/home/u/.var/app/com.valvesoftware.Steam/data/Steam",
            "/run/media/mmcblk0p1",
        ])
    );
    assert_eq!(
        deck_path_candidates(),
        names(&["/home/deck/.steam/steam", "/home/deck/.local/share/Steam"])
    );
    assert_eq!(
        registry_file_candidates("/home/u"),
        names(&[
            "/home/u/.steam/registry.vdf",
            "/home/u/.steam/steam/registry.vdf",
            "/home/u/.local/share/Steam/registry.vdf",
        ])
    );
}

#[test]
fn the_registry_names_installation_paths() {
    let text = "\"Registry\"\n{\n\t\"SteamPath\"\t\t\"/home/u/.steam/steam\"\n\t\"InstallPath\"\t\"/opt/steam\"\n}\n";
    assert_eq!(read_steam_registry(text), names(&["/home/u/.steam/steam", "/opt/steam"]));
    let same = "\"SteamPath\" \"/a\"\n\"InstallPath\" \"/a\"\n";
    assert_eq!(read_steam_registry(same), names(&["/a"]));
    assert_eq!(read_steam_registry("\"InstallPath\"   \"/b\""), names(&["/b"]));
    assert!(read_steam_registry("nothing here").is_empty());
    assert!(read_steam_registry("\"SteamPath\" \"\"").is_empty());
    assert_eq!(
        registry_paths_from(Some("/x".to_string()), Some("/y".to_string())),
        names(&["/x", "/y"])
    );
    assert!(registry_paths_from(None, None).is_empty());
}

#[test]
fn found_places_are_merged_without_repeats() {
    let home = names(&["/home/deck/.steam/steam", "/home/deck/.local/share/Steam"]);
    let deck = names(&["/home/deck/.steam/steam", "/home/deck/.local/share/Steam"]);
    let registry = names(&["/opt/steam", "/home/deck/.steam/steam", "/opt/steam"]);
    assert_eq!(
        get_default_steam_paths(&home, &deck, &registry),
        names(&["/home/deck/.steam/steam", "/home/deck/.local/share/Steam", "/opt/steam"])
    );
    let twice = names(&["/a", "/a"]);
    assert_eq!(get_default_steam_paths(&twice, &Vec::new(), &Vec::new()), twice);
    let mut paths = names(&["/a"]);
    extend_unique(&mut paths, &names(&["/b", "/a", "/b", "/c"]));
    assert_eq!(paths, names(&["/a", "/b", "/c"]));
}

#[test]
fn a_library_descriptor_names_roots() {
    assert_eq!(
        parse_library_folders_vdf(VDF),
        names(&["/home/u/.local/share/Steam/steamapps", "/mnt/games/SteamLibrary/steamapps"])
    );
    assert!(parse_library_folders_vdf("\"path\" \"\"").is_empty());
    assert!(parse_library_folders_vdf("").is_empty());
    assert_eq!(library_roots_from(&names(&["/a", "/b/"])), names(&["/a/steamapps", "/b/steamapps"]));
    assert_eq!(
        library_vdf_candidates("/lib/steamapps"),
        names(&["/lib/steamapps/libraryfolders.vdf", "/lib/steamapps/config/libraryfolders.vdf"])
    );
}

#[test]
fn a_search_looks_at_three_places_for_each_base() {
    let mut search = find_steam_libraries(&names(&["/a", "/b"]));
    let mut probes = Vec::new();
    while let Some(p) = search.next_probe() {
        probes.push(p);
    }
    assert_eq!(
        probes,
        names(&[
            "/a/steamapps",
            "/a/steam/steamapps",
            "/a/Steam/steamapps",
            "/b/steamapps",
            "/b/steam/steamapps",
            "/b/Steam/steamapps",
        ])
    );
    assert!(search.is_done());
    assert!(search.libraries().is_empty());
    let mut none = find_steam_libraries(&Vec::new());
    assert!(none.is_done());
    assert_eq!(none.next_probe(), None);
}

#[test]
fn descriptors_that_name_each_other_end_the_search() {
    // /a/steamapps names /b, and /b/steamapps names /a and itself.
    let vdf_a = "\"path\" \"/a\"\n\"path\" \"/b\"\n".to_string();
    let vdf_b = "\"path\" \"/b\"\n\"path\" \"/a\"\n".to_string();
    let mut search = find_steam_libraries(&names(&["/a"]));
    let mut looked_at = 0;
    while let Some(probe) = search.next_probe() {
        looked_at += 1;
        assert!(looked_at < 50);
        let descriptors = match probe.as_str() {
            "/a/steamapps" => vec![vdf_a.clone()],
            "/b/steamapps" => vec![vdf_b.clone()],
            _ => continue,
        };
        search.report(&probe, &descriptors);
    }
    assert_eq!(search.libraries(), names(&["/a/steamapps", "/b/steamapps"]));
    assert_eq!(looked_at, 7);
}

#[test]
fn a_root_is_kept_once() {
    let mut search = find_steam_libraries(&Vec::new());
    assert!(search.report("/lib/steamapps", &Vec::new()));
    assert!(!search.report("/lib/steamapps", &vec!["\"path\" \"/other\"".to_string()]));
    assert!(search.is_done());
    assert!(search.report("/lib2/steamapps", &vec!["\"path\" \"/x\"\n\"path\" \"/y\"".to_string(), "\"path\" \"/z\"".to_string()]));
    assert_eq!(search.next_probe(), Some("/x/steamapps".to_string()));
    assert_eq!(search.next_probe(), Some("/y/steamapps".to_string()));
    assert_eq!(search.next_probe(), Some("/z/steamapps".to_string()));
    assert_eq!(search.next_probe(), None);
    assert_eq!(search.libraries(), names(&["/lib/steamapps", "/lib2/steamapps"]));
}

#[test]
fn the_first_registry_that_names_a_path_counts() {
    let texts = vec![
        "nothing".to_string(),
        "\"InstallPath\" \"/second\"".to_string(),
        "\"SteamPath\" \"/third\"".to_string(),
    ];
    assert_eq!(registry_paths_among(&texts), names(&["/second"]));
    assert!(registry_paths_among(&vec!["corrupt".to_string()]).is_empty());
    assert!(registry_paths_among(&Vec::new()).is_empty());
}

#[test]
fn a_search_takes_in_the_roots_a_root_names() {
    let mut search = find_steam_libraries(&Vec::new());
    assert!(search.report_roots("/a", &names(&["/b", "/c"])));
    assert!(!search.report_roots("/a", &names(&["/d"])));
    assert_eq!(search.next_probe(), Some("/b".to_string()));
    assert!(search.report_roots("/b", &names(&["/a", "/e"])));
    assert_eq!(search.next_probe(), Some("/a".to_string()));
    assert_eq!(search.next_probe(), Some("/e".to_string()));
    assert_eq!(search.next_probe(), Some("/c".to_string()));
    assert_eq!(search.next_probe(), None);
    assert_eq!(search.libraries(), names(&["/a", "/b"]));
}

#[test]
fn the_first_list_that_names_any_path_counts() {
    let lists = vec![Vec::new(), names(&["/x", "/y"]), names(&["/z"])];
    assert_eq!(first_named(&lists), names(&["/x", "/y"]));
    assert!(first_named(&vec![Vec::new(), Vec::new()]).is_empty());
    assert!(first_named(&Vec::new()).is_empty());
    assert_eq!(
        roots_named_by(&vec!["\"path\" \"/p\"".to_string(), "none".to_string(), "\"path\" \"/q\"".to_string()]),
        names(&["/p/steamapps", "/q/steamapps"])
    );
}

fn dir(path: &str, named: &[&str]) -> LibraryDir {
    LibraryDir { path: path.to_string(), named: names(named) }
}

#[test]
fn a_whole_search_ends_and_finds_each_reachable_root_once() {
    // /a names /b and itself, /b names /a and /c; /d is named by nobody.
    let dirs = vec![
        dir("/a/steamapps", &["/a/steamapps", "/b/steamapps"]),
        dir("/b/steamapps", &["/a/steamapps", "/c/steamapps", "/gone/steamapps"]),
        dir("/c/steamapps", &[]),
        dir("/d/steamapps", &["/a/steamapps"]),
        dir("/a/steamapps", &["/d/steamapps"]),
    ];
    assert_eq!(
        search_libraries(&names(&["/a"]), &dirs),
        names(&["/a/steamapps", "/b/steamapps", "/c/steamapps"])
    );
    assert_eq!(
        search_libraries(&names(&["/none", "/d", "/a"]), &dirs),
        names(&["/d/steamapps", "/a/steamapps", "/b/steamapps", "/c/steamapps"])
    );
    assert!(search_libraries(&names(&["/a"]), &Vec::new()).is_empty());
    assert!(search_libraries(&Vec::new(), &dirs).is_empty());
}
