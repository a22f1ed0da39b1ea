use creamlinux::scanner::{
    collect_records, descriptor_from, find_installed_games, is_appmanifest_name, parse_appmanifest,
    scan_workers, select_among, select_candidates, skips_id, skips_title, worker_count, Candidate,
    ManifestFile, ParsedManifest, ScanBoard, TitleSurvey,
};

fn acf(appid: &str, name: &str, dir: &str) -> String {
    format!(
        "\"AppState\"\n{{\n\t\"appid\"\t\t\"{}\"\n\t\"Universe\"\t\t\"1\"\n\t\"name\"\t\t\"{}\"\n\t\"StateFlags\"\t\t\"4\"\n\t\"installdir\"\t\t\"{}\"\n}}\n",
        appid, name, dir
    )
}

fn file(root: &str, appid: &str, name: &str, dir: &str) -> ManifestFile {
    ManifestFile { steamapps_dir: root.to_string(), content: acf(appid, name, dir) }
}

fn survey(native: bool, api_files: &[&str], backup: bool) -> Option<TitleSurvey> {
    Some(TitleSurvey {
        native,
        api_files: api_files.iter().map(|s| s.to_string()).collect(),
        cream_installed: false,
        shim_backup_found: backup,
    })
}

#[test]
fn descriptor_files_are_known_by_their_name() {
    assert!(is_appmanifest_name("appmanifest_480.acf"));
    assert!(is_appmanifest_name("appmanifest_.acf"));
    assert!(!is_appmanifest_name("appmanifest_480.acf.tmp"));
    assert!(!is_appmanifest_name("manifest_480.acf"));
    assert!(!is_appmanifest_name("libraryfolders.vdf"));
}

#[test]
fn a_descriptor_gives_identifier_name_and_directory() {
    let parsed = parse_appmanifest(&acf("480", "Spacewar", "Spacewar Dir"));
    assert_eq!(
        parsed,
        Some(("480".to_string(), "Spacewar".to_string(), "Spacewar Dir".to_string()))
    );
}

#[test]
fn a_malformed_descriptor_gives_nothing() {
    assert_eq!(parse_appmanifest(""), None);
    assert_eq!(parse_appmanifest("\"appid\" \"480\"\n\"name\" \"X\"\n"), None);
    assert_eq!(parse_appmanifest(&acf("x480", "Name", "dir")), None);
    assert_eq!(parse_appmanifest(&acf("480", "", "dir")), None);
    assert_eq!(
        descriptor_from(Some("1".to_string()), None, Some("d".to_string())),
        None
    );
    assert_eq!(
        descriptor_from(Some("1".to_string()), Some("n".to_string()), Some("d".to_string())),
        Some(("1".to_string(), "n".to_string(), "d".to_string()))
    );
}

#[test]
fn tools_and_runtimes_are_skipped() {
    for id in ["228980", "1070560", "1391110", "1628350", "1493710", "2180100"] {
        assert!(skips_id(id));
    }
    assert!(!skips_id("480"));
    assert!(!skips_id("22898"));
    assert!(skips_title("Steam Linux Runtime 3.0 (sniper)"));
    assert!(skips_title("PROTON 9.0"));
    assert!(skips_title("Steamworks Common Redistributables"));
    assert!(skips_title("Some redistributable thing"));
    assert!(skips_title("DotNet runtime"));
    assert!(skips_title("VC Redist 2019"));
    assert!(!skips_title("Spacewar"));
    assert!(!skips_title("Pro Tonic"));
}

#[test]
fn candidates_keep_the_order_of_the_files() {
    let files = vec![
        file("/lib1/steamapps", "10", "Ten", "ten"),
        file("/lib1/steamapps", "228980", "Steamworks Common Redistributables", "redist"),
        ManifestFile { steamapps_dir: "/lib1/steamapps".to_string(), content: "broken".to_string() },
        file("/lib2/steamapps", "20", "Proton Experimental", "proton"),
        file("/lib2/steamapps", "30", "Thirty", "thirty dir"),
    ];
    let found = select_candidates(&files);
    let got: Vec<(String, String, String)> =
        found.iter().map(|c| (c.id.clone(), c.title.clone(), c.path.clone())).collect();
    assert_eq!(
        got,
        vec![
            ("10".to_string(), "Ten".to_string(), "/lib1/steamapps/common/ten".to_string()),
            (
                "30".to_string(),
                "Thirty".to_string(),
                "/lib2/steamapps/common/thirty dir".to_string()
            ),
        ]
    );
}

#[test]
fn a_title_named_in_two_roots_is_listed_once() {
    let files = vec![
        file("/lib1/steamapps", "10", "Ten", "ten"),
        file("/lib2/steamapps", "10", "Ten again", "ten2"),
        file("/lib2/steamapps", "11", "Eleven", "eleven"),
        file("/lib3/steamapps", "10", "Ten once more", "ten3"),
    ];
    let found = select_candidates(&files);
    assert_eq!(found.len(), 2);
    assert_eq!(found[0].path, "/lib1/steamapps/common/ten");
    assert_eq!(found[1].id, "11");
    let surveys = vec![survey(true, &[], false), survey(true, &[], false)];
    let games = find_installed_games(&files, &surveys);
    let ids: Vec<String> = games.iter().map(|g| g.id.clone()).collect();
    assert_eq!(ids, vec!["10", "11"]);
}

#[test]
fn a_skipped_name_still_takes_its_identifier() {
    let files = vec![
        file("/lib1/steamapps", "10", "Proton 8", "proton"),
        file("/lib2/steamapps", "10", "Ten", "ten"),
    ];
    assert_eq!(select_candidates(&files).len(), 0);
}

#[test]
fn every_candidate_with_a_directory_yields_one_record() {
    for n in [0usize, 1, 3, 8, 20] {
        let files: Vec<ManifestFile> = (0..n)
            .map(|i| file("/lib/steamapps", &format!("{}", 1000 + i), &format!("Game {}", i), "d"))
            .collect();
        let surveys: Vec<Option<TitleSurvey>> =
            (0..n).map(|_| survey(false, &["steam_api.dll"], true)).collect();
        let games = find_installed_games(&files, &surveys);
        assert_eq!(games.len(), n);
        for (i, g) in games.iter().enumerate() {
            assert_eq!(g.id, format!("{}", 1000 + i));
            assert!(g.smoke_installed);
        }
    }
}

#[test]
fn titles_without_a_directory_yield_no_record() {
    let files = vec![
        file("/lib/steamapps", "1", "One", "one"),
        file("/lib/steamapps", "2", "Two", "two"),
        file("/lib/steamapps", "3", "Three", "three"),
    ];
    let surveys = vec![survey(true, &["steam_api.dll"], true), None];
    let games = find_installed_games(&files, &surveys);
    assert_eq!(games.len(), 1);
    assert_eq!(games[0].title, "One");
    assert!(games[0].native);
    assert!(games[0].smoke_installed);
    assert_eq!(games[0].api_files, vec!["steam_api.dll"]);
}

#[test]
fn the_shim_counts_wherever_a_backup_was_found() {
    let files = vec![
        file("/lib/steamapps", "1", "One", "one"),
        file("/lib/steamapps", "2", "Two", "two"),
        file("/lib/steamapps", "3", "Three", "three"),
        file("/lib/steamapps", "4", "Four", "four"),
    ];
    let surveys = vec![
        survey(false, &["steam_api.dll"], true),
        survey(true, &["steam_api.dll"], true),
        survey(false, &["steam_api.dll"], false),
        survey(true, &[], false),
    ];
    let games = find_installed_games(&files, &surveys);
    let flags: Vec<bool> = games.iter().map(|g| g.smoke_installed).collect();
    assert_eq!(flags, vec![true, true, false, false]);
    let native: Vec<bool> = games.iter().map(|g| g.native).collect();
    assert_eq!(native, vec![false, true, false, true]);
}

#[test]
fn workers_are_between_one_and_eight() {
    assert_eq!(worker_count(0), 1);
    assert_eq!(worker_count(1), 1);
    assert_eq!(worker_count(4), 4);
    assert_eq!(worker_count(8), 8);
    assert_eq!(worker_count(9), 8);
    assert_eq!(worker_count(usize::MAX), 8);
    let here = scan_workers();
    assert!(1 <= here && here <= 8);
}

// Hands every title out and takes every result in, never with more than the
// limit under way; returns the titles in the order they were handed out.
fn drain(total: usize, limit: usize) -> Vec<usize> {
    let mut board = ScanBoard::new(total, limit);
    let mut handed_out = Vec::new();
    let mut running = 0usize;
    while !board.is_done() {
        while let Some(n) = board.claim() {
            handed_out.push(n);
            running += 1;
            assert!(running <= limit.max(1));
        }
        assert!(board.complete());
        running -= 1;
    }
    assert_eq!(board.claim(), None);
    assert!(!board.complete());
    handed_out
}

#[test]
fn the_board_hands_out_every_title_once() {
    for (total, limit) in [(0, 4), (3, 8), (8, 8), (20, 8), (5, 1), (5, 0)] {
        let handed_out = drain(total, limit);
        assert_eq!(handed_out, (0..total).collect::<Vec<usize>>());
    }
}

#[test]
fn the_board_keeps_to_its_limit() {
    let mut board = ScanBoard::new(5, 2);
    assert_eq!(board.claim(), Some(0));
    assert_eq!(board.claim(), Some(1));
    assert_eq!(board.claim(), None);
    assert!(board.complete());
    assert_eq!(board.claim(), Some(2));
    assert!(!board.is_done());
}

fn parsed(root: &str, d: Option<(&str, &str, &str)>, title_skipped: bool) -> ParsedManifest {
    ParsedManifest {
        steamapps_dir: root.to_string(),
        descriptor: d.map(|(a, b, c)| (a.to_string(), b.to_string(), c.to_string())),
        title_skipped,
    }
}

#[test]
fn selection_among_parsed_descriptors() {
    let files = vec![
        parsed("/l1", Some(("10", "Ten", "ten")), false),
        parsed("/l1", None, false),
        parsed("/l1", Some(("228980", "Redist", "r")), false),
        parsed("/l2", Some(("20", "Layer", "layer")), true),
        parsed("/l2", Some(("10", "Ten again", "ten2")), false),
        parsed("/l3", Some(("20", "Twenty", "twenty")), false),
        parsed("/l3", Some(("30", "Thirty", "thirty")), false),
    ];
    let found = select_among(&files);
    let got: Vec<(String, String, String)> =
        found.iter().map(|c| (c.id.clone(), c.title.clone(), c.path.clone())).collect();
    assert_eq!(
        got,
        vec![
            ("10".to_string(), "Ten".to_string(), "/l1/common/ten".to_string()),
            ("30".to_string(), "Thirty".to_string(), "/l3/common/thirty".to_string()),
        ]
    );
    assert!(select_among(&Vec::new()).is_empty());
}

#[test]
fn records_are_made_of_candidates_and_surveys() {
    let cands = vec![
        Candidate { id: "1".to_string(), title: "One".to_string(), path: "/l/common/one".to_string() },
        Candidate { id: "2".to_string(), title: "Two".to_string(), path: "/l/common/two".to_string() },
        Candidate { id: "3".to_string(), title: "Three".to_string(), path: "/l/common/3".to_string() },
    ];
    let surveys = vec![survey(true, &["steam_api.dll"], true), None];
    let games = collect_records(&cands, &surveys);
    assert_eq!(games.len(), 1);
    assert_eq!(games[0].id, "1");
    assert_eq!(games[0].path, "/l/common/one");
    assert!(games[0].native && games[0].smoke_installed && !games[0].cream_installed);
    assert!(collect_records(&cands, &Vec::new()).is_empty());
}
