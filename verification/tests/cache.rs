use creamlinux::cache::{
    check_and_update_cache, check_for_update, conclude_update, get_cache_dir, get_creamlinux_dir,
    get_creamlinux_files_dir, get_creamlinux_version_dir, get_smokeapi_dir, get_smokeapi_dll_path,
    get_smokeapi_version_dir, initialize_cache, is_cache_initialized, list_creamlinux_files,
    list_smokeapi_dlls, read_versions, update_creamlinux_version, update_smokeapi_version,
    versions_file, CacheVersions, Conclusion, UpdateDecision, UpdateResult, VersionInfo,
};
use creamlinux::installer::{ErrorKind, InstallerError, InstallerType};
use creamlinux::manifest::GameManifest;
use creamlinux::plan::{After, FileOp};
use creamlinux::stored::Stored;
use creamlinux::updates::{
    refresh_creamlinux, update_needs, update_outdated_games, GameUpdateReport, GameUpdateStats,
};

fn versions(smoke: &str, cream: &str) -> CacheVersions {
    CacheVersions {
        smokeapi: VersionInfo { latest: smoke.to_string() },
        creamlinux: VersionInfo { latest: cream.to_string() },
    }
}

fn names(v: &[&str]) -> Vec<String> {
    v.iter().map(|s| s.to_string()).collect()
}

#[test]
fn two_reads_of_the_same_store_agree() {
    let first = read_versions(Stored::Value(versions("s1", "c1")));
    let second = read_versions(Stored::Value(versions("s1", "c1")));
    assert_eq!(first.smokeapi.latest, second.smokeapi.latest);
    assert_eq!(first.creamlinux.latest, second.creamlinux.latest);
    assert_eq!(first.smokeapi.latest, "s1");
    let first = read_versions(Stored::Unreadable);
    let second = read_versions(Stored::Unreadable);
    assert_eq!(first.smokeapi.latest, second.smokeapi.latest);
    assert_eq!(first.creamlinux.latest, "");
}

#[test]
fn a_missing_or_broken_pointer_reads_as_empty() {
    for found in [Stored::Absent, Stored::Unreadable] {
        let v = read_versions(found);
        assert_eq!(v.smokeapi.latest, "");
        assert_eq!(v.creamlinux.latest, "");
        assert!(!is_cache_initialized(&v));
    }
    let d = CacheVersions::default();
    assert_eq!(d.smokeapi.latest, "");
    assert_eq!(d.creamlinux.latest, "");
}

#[test]
fn the_cache_is_initialized_when_both_kinds_are_cached() {
    assert!(is_cache_initialized(&versions("s", "c")));
    assert!(!is_cache_initialized(&versions("", "c")));
    assert!(!is_cache_initialized(&versions("s", "")));
    assert_eq!(
        initialize_cache(&versions("", "")),
        vec![InstallerType::Smoke, InstallerType::Cream]
    );
    assert_eq!(initialize_cache(&versions("s", "")), vec![InstallerType::Cream]);
    assert_eq!(initialize_cache(&versions("", "c")), vec![InstallerType::Smoke]);
    assert!(initialize_cache(&versions("s", "c")).is_empty());
}

#[test]
fn the_layout_of_the_cache() {
    assert_eq!(get_cache_dir("/home/u/.cache/creamlinux"), "/home/u/.cache/creamlinux");
    assert_eq!(get_cache_dir("/home/u/.cache/other"), "/home/u/.cache/creamlinux");
    assert_eq!(versions_file("/c"), "/c/versions.json");
    assert_eq!(get_smokeapi_dir("/c"), "/c/smokeapi");
    assert_eq!(get_creamlinux_dir("/c"), "/c/creamlinux");
    assert_eq!(get_smokeapi_version_dir("/c", "v2.0.5"), "/c/smokeapi/v2.0.5");
    assert_eq!(get_creamlinux_version_dir("/c", "v1"), "/c/creamlinux/v1");
    assert_eq!(
        get_smokeapi_dll_path("/c", &versions("v2", "")),
        Ok("/c/smokeapi/v2/SmokeAPI.dll".to_string())
    );
    assert_eq!(
        get_smokeapi_dll_path("/c", &versions("", "v1")),
        Err("SmokeAPI is not cached".to_string())
    );
    assert_eq!(
        get_creamlinux_files_dir("/c", &versions("", "v1")),
        Ok("/c/creamlinux/v1".to_string())
    );
    assert_eq!(
        get_creamlinux_files_dir("/c", &versions("v2", "")),
        Err("CreamLinux is not cached".to_string())
    );
}

#[test]
fn cached_files_are_listed() {
    let entries = names(&["/c/s/v/SmokeAPI32.dll", "/c/s/v/readme.md", "/c/s/v/SmokeAPI64.dll", "/c/s/v/x.DLL"]);
    assert_eq!(
        list_smokeapi_dlls(&versions("v", ""), &entries),
        names(&["/c/s/v/SmokeAPI32.dll", "/c/s/v/SmokeAPI64.dll"])
    );
    assert!(list_smokeapi_dlls(&versions("", "c"), &entries).is_empty());
    assert_eq!(list_creamlinux_files(&versions("", "c"), &entries), entries);
    assert!(list_creamlinux_files(&versions("s", ""), &entries).is_empty());
}

#[test]
fn the_pointer_moves_before_the_old_directory_goes() {
    let (updated, plan) = update_smokeapi_version("/c", &versions("v1", "c1"), "v2");
    assert_eq!(updated.smokeapi.latest, "v2");
    assert_eq!(updated.creamlinux.latest, "c1");
    assert_eq!(plan.len(), 2);
    match &plan[0].op {
        FileOp::StoreVersions { dir, versions } => {
            assert_eq!(dir, "/c");
            assert_eq!(versions.smokeapi.latest, "v2");
            assert_eq!(versions.creamlinux.latest, "c1");
        }
        _ => panic!("the pointer is not written first"),
    }
    assert_eq!(plan[0].on_failure, After::Fail);
    match &plan[1].op {
        FileOp::RemoveTree { path } => assert_eq!(path, "/c/smokeapi/v1"),
        _ => panic!("the old directory is not deleted"),
    }
    assert_eq!(plan[1].on_failure, After::Next);
}

#[test]
fn nothing_is_deleted_without_an_older_version() {
    let (updated, plan) = update_creamlinux_version("/c", &versions("s", ""), "c1");
    assert_eq!(updated.creamlinux.latest, "c1");
    assert_eq!(updated.smokeapi.latest, "s");
    assert_eq!(plan.len(), 1);
    let (_, plan) = update_creamlinux_version("/c", &versions("s", "c1"), "c1");
    assert_eq!(plan.len(), 1);
    let (_, plan) = update_creamlinux_version("/c", &versions("s", "c1"), "c2");
    match &plan[1].op {
        FileOp::RemoveTree { path } => assert_eq!(path, "/c/creamlinux/c1"),
        _ => panic!("the old directory is not deleted"),
    }
}

#[test]
fn a_check_compares_the_latest_with_the_cached_version() {
    assert!(matches!(check_for_update("v1", &Ok("v1".to_string())), UpdateDecision::UpToDate));
    assert!(matches!(
        check_for_update("v1", &Ok("v2".to_string())),
        UpdateDecision::Fetch { version } if version == "v2"
    ));
    assert!(matches!(
        check_for_update("", &Ok("v2".to_string())),
        UpdateDecision::Fetch { version } if version == "v2"
    ));
    assert!(matches!(
        check_for_update("v1", &Err(InstallerError::TransferFailure("timeout".to_string()))),
        UpdateDecision::Unknown
    ));
}

#[test]
fn a_failed_download_leaves_the_cached_version_in_place() {
    let cached = versions("v1", "c1");
    let failed = Err(InstallerError::TransferFailure("connection reset".to_string()));
    let conclusion = conclude_update("/c", &cached, InstallerType::Smoke, failed);
    match &conclusion {
        Conclusion::Retained { cause } => assert_eq!(cause.kind(), ErrorKind::TransferFailure),
        _ => panic!("the cached version was not retained"),
    }
    let result =
        check_and_update_cache(UpdateResult::default(), InstallerType::Smoke, &conclusion).unwrap();
    assert!(!result.any_updated());
    assert_eq!(result.new_smokeapi_version, None);
    assert_eq!(cached.smokeapi.latest, "v1");
}

#[test]
fn a_failed_first_download_fails_the_check() {
    let failed = Err(InstallerError::TransferFailure("no route".to_string()));
    let conclusion = conclude_update("/c", &versions("", "c1"), InstallerType::Smoke, failed);
    assert!(matches!(conclusion, Conclusion::Failed { .. }));
    let err = check_and_update_cache(UpdateResult::default(), InstallerType::Smoke, &conclusion)
        .unwrap_err();
    assert_eq!(err.kind(), ErrorKind::TransferFailure);
    assert_eq!(err.message(), "no route");
}

#[test]
fn a_download_advances_the_pointer() {
    let conclusion =
        conclude_update("/c", &versions("v1", "c1"), InstallerType::Cream, Ok("c2".to_string()));
    match &conclusion {
        Conclusion::Advanced { versions, plan, version } => {
            assert_eq!(version, "c2");
            assert_eq!(versions.creamlinux.latest, "c2");
            assert_eq!(versions.smokeapi.latest, "v1");
            assert_eq!(plan.len(), 2);
        }
        _ => panic!("the pointer did not advance"),
    }
    let result =
        check_and_update_cache(UpdateResult::default(), InstallerType::Cream, &conclusion).unwrap();
    assert!(result.any_updated());
    assert!(result.creamlinux_updated);
    assert!(!result.smokeapi_updated);
    assert_eq!(result.new_creamlinux_version, Some("c2".to_string()));
    let conclusion =
        conclude_update("/c", &versions("v1", "c2"), InstallerType::Smoke, Ok("v2".to_string()));
    let result = check_and_update_cache(result, InstallerType::Smoke, &conclusion).unwrap();
    assert!(result.smokeapi_updated && result.creamlinux_updated);
    assert_eq!(result.new_smokeapi_version, Some("v2".to_string()));
}

#[test]
fn titles_behind_the_cache_need_an_update() {
    let cached = versions("s2", "c2");
    let mut m = GameManifest::with_smokeapi("s1".to_string());
    let needs = update_needs(&m, &cached);
    assert!(needs.smokeapi);
    assert!(!needs.creamlinux);
    m.creamlinux_version = Some("c2".to_string());
    m.smokeapi_version = Some("s2".to_string());
    let needs = update_needs(&m, &cached);
    assert!(!needs.smokeapi && !needs.creamlinux);
    let needs = update_needs(&GameManifest::with_creamlinux("c1".to_string()), &cached);
    assert!(!needs.smokeapi && needs.creamlinux);
}

#[test]
fn update_outcomes_are_counted() {
    let reports = vec![
        GameUpdateReport { smokeapi: Some(true), creamlinux: None },
        GameUpdateReport { smokeapi: Some(false), creamlinux: Some(true) },
        GameUpdateReport { smokeapi: None, creamlinux: None },
        GameUpdateReport { smokeapi: Some(true), creamlinux: Some(false) },
        GameUpdateReport { smokeapi: Some(true), creamlinux: Some(false) },
    ];
    let stats = update_outdated_games(&reports);
    assert_eq!(
        stats,
        GameUpdateStats {
            smokeapi_updated: 3,
            smokeapi_failed: 1,
            creamlinux_updated: 1,
            creamlinux_failed: 2
        }
    );
    assert_eq!(stats.total_updated(), 4);
    assert_eq!(stats.total_failed(), 3);
    assert!(stats.has_failures());
    let none = update_outdated_games(&Vec::new());
    assert_eq!(none, GameUpdateStats::default());
    assert_eq!(none.total_updated(), 0);
    assert!(!none.has_failures());
}

#[test]
fn bringing_a_title_up_to_date_leaves_its_configuration() {
    let files = names(&["/c/creamlinux/c2/cream.sh", "/c/creamlinux/c2/lib64Creamlinux.so"]);
    let mut manifest = GameManifest::with_creamlinux("c1".to_string());
    manifest.smokeapi_version = Some("s1".to_string());
    let plan = refresh_creamlinux("/g", &files, &manifest, "c2").unwrap();
    assert_eq!(plan.len(), 4);
    assert!(matches!(
        &plan[0].op,
        FileOp::Copy { from, to } if from == "/c/creamlinux/c2/cream.sh" && to == "/g/cream.sh"
    ));
    assert!(matches!(&plan[1].op, FileOp::MakeExecutable { path } if path == "/g/cream.sh"));
    assert!(plan.iter().all(|s| !matches!(s.op, FileOp::Write { .. })));
    match &plan[3].op {
        FileOp::StoreManifest { dir, manifest } => {
            assert_eq!(dir, "/g");
            assert_eq!(manifest.creamlinux_version, Some("c2".to_string()));
            assert_eq!(manifest.smokeapi_version, Some("s1".to_string()));
        }
        _ => panic!("the record is not written last"),
    }
    let err = refresh_creamlinux("/g", &Vec::new(), &manifest, "c2").unwrap_err();
    assert_eq!(err.kind(), ErrorKind::NotFound);
}
