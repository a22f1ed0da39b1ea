use creamlinux::download::{download_to_cache, download_url, release_url};
use creamlinux::file_ops::{copy_with_backup, make_executable, safe_remove};
use creamlinux::installer::{ActionPlan, ErrorKind, InstallerType};
use creamlinux::json::Json;
use creamlinux::plan::{advance, begin, After, FileOp, Progress};
use creamlinux::shimconfig::{find_smokeapi_config_path, is_shim_backup, SmokeAPIConfig};
use creamlinux::unlockers::{CreamLinux, SmokeAPI, Unlocker};

fn names(v: &[&str]) -> Vec<String> {
    v.iter().map(|s| s.to_string()).collect()
}

#[test]
fn where_the_bundles_come_from() {
    assert_eq!(
        release_url(InstallerType::Cream),
        "https://api.github.com/repos/anticitizn/creamlinux/releases/latest"
    );
    assert_eq!(
        release_url(InstallerType::Smoke),
        "https://api.github.com/repos/acidicoala/SmokeAPI/releases/latest"
    );
    assert_eq!(
        download_url(InstallerType::Cream, "v1.1.0"),
        "https://github.com/anticitizn/creamlinux/releases/download/v1.1.0/creamlinux.zip"
    );
    assert_eq!(
        download_url(InstallerType::Smoke, "v2.0.5"),
        "https://github.com/acidicoala/SmokeAPI/releases/download/v2.0.5/SmokeAPI-v2.0.5.zip"
    );
    assert_eq!(CreamLinux::latest_release_url(), release_url(InstallerType::Cream));
    assert_eq!(SmokeAPI::bundle_url("v9"), download_url(InstallerType::Smoke, "v9"));
}

#[test]
fn what_is_unpacked_of_a_bundle() {
    let u = download_to_cache(InstallerType::Cream, "creamlinux/cream.sh").unwrap();
    assert_eq!(u.file_name, "cream.sh");
    assert!(u.executable);
    let u = download_to_cache(InstallerType::Cream, "lib64Creamlinux.so").unwrap();
    assert_eq!(u.file_name, "lib64Creamlinux.so");
    assert!(!u.executable);
    assert!(download_to_cache(InstallerType::Cream, "creamlinux/").is_none());
    let u = download_to_cache(InstallerType::Smoke, "release/SmokeAPI64.DLL").unwrap();
    assert_eq!(u.file_name, "SmokeAPI64.DLL");
    assert!(!u.executable);
    assert!(download_to_cache(InstallerType::Smoke, "README.md").is_none());
    assert!(download_to_cache(InstallerType::Smoke, "dir.dll/").is_none());
    assert!(CreamLinux::download_to_cache("docs/").is_none());
    assert!(SmokeAPI::download_to_cache("SmokeAPI32.dll").is_some());
}

#[test]
fn the_two_unlockers_by_name_and_kind() {
    assert_eq!(CreamLinux::name(), "CreamLinux");
    assert_eq!(SmokeAPI::name(), "SmokeAPI");
    assert_eq!(CreamLinux::kind(), InstallerType::Cream);
    assert_eq!(SmokeAPI::kind(), InstallerType::Smoke);
}

#[test]
fn the_latest_version_is_the_tag_of_the_release() {
    let release = Json::Object(vec![("tag_name".to_string(), Json::Text("v2.0.5".to_string()))]);
    assert_eq!(SmokeAPI::get_latest_version(&release).unwrap(), "v2.0.5");
    assert_eq!(CreamLinux::get_latest_version(&release).unwrap(), "v2.0.5");
    let err = CreamLinux::get_latest_version(&Json::Object(Vec::new())).unwrap_err();
    assert_eq!(err.kind(), ErrorKind::FormatFailure);
    assert_eq!(err.message(), "Failed to extract version from release info");
}

#[test]
fn the_unlockers_lay_out_their_work() {
    let files = names(&["/c/cream.sh", "/c/lib32Creamlinux.so"]);
    match CreamLinux::install_to_game("/g", &files) {
        Ok(ActionPlan::Steps(plan)) => {
            assert_eq!(plan.len(), 3);
            assert!(matches!(&plan[1].op, FileOp::MakeExecutable { path } if path == "/g/cream.sh"));
            assert!(matches!(
                &plan[2].op,
                FileOp::Copy { from, to } if from == "/c/lib32Creamlinux.so" && to == "/g/lib32Creamlinux.so"
            ));
        }
        _ => panic!("no steps"),
    }
    let err = CreamLinux::install_to_game("/g", &Vec::new()).unwrap_err();
    assert_eq!(err.kind(), ErrorKind::NotFound);
    match CreamLinux::uninstall_from_game("/g", &Vec::new()) {
        ActionPlan::Steps(plan) => {
            assert_eq!(plan.len(), 4);
            assert!(plan.iter().all(|s| s.on_failure == After::Next));
            assert!(matches!(&plan[3].op, FileOp::Remove { path } if path == "/g/cream_api.ini"));
        }
        _ => panic!("no steps"),
    }
    let api = names(&["steam_api.dll"]);
    match SmokeAPI::install_to_game("/g", &api) {
        Ok(ActionPlan::Units(units)) => assert_eq!(units[0].backup.as_deref(), Some("/g/steam_api_o.dll")),
        _ => panic!("no units"),
    }
    match SmokeAPI::uninstall_from_game("/g", &Vec::new()) {
        ActionPlan::Units(units) => assert!(units.is_empty()),
        _ => panic!("no units"),
    }
}

#[test]
fn plans_for_single_files() {
    let plan = copy_with_backup("/src/a.txt", "/dst/a.txt", true);
    assert_eq!(plan.len(), 2);
    assert!(matches!(
        &plan[0].op,
        FileOp::Copy { from, to } if from == "/dst/a.txt" && to == "/dst/a.bak"
    ));
    assert!(matches!(
        &plan[1].op,
        FileOp::Copy { from, to } if from == "/src/a.txt" && to == "/dst/a.txt"
    ));
    assert_eq!(copy_with_backup("/src/a", "/dst/a", false).len(), 1);
    assert!(safe_remove("/x", false).is_empty());
    assert!(matches!(&safe_remove("/x", true)[0].op, FileOp::Remove { path } if path == "/x"));
    assert!(matches!(
        &make_executable("/x/run.sh")[0].op,
        FileOp::MakeExecutable { path } if path == "/x/run.sh"
    ));
}

#[test]
fn a_plan_is_walked_step_by_step() {
    let plan = copy_with_backup("/s", "/d", true);
    assert_eq!(begin(&plan), Progress::At(0));
    assert_eq!(advance(&plan, 0, true), Progress::At(1));
    assert_eq!(advance(&plan, 0, false), Progress::GivenUp);
    assert_eq!(advance(&plan, 1, true), Progress::Completed);
    assert_eq!(advance(&plan, 1, false), Progress::GivenUp);
    assert_eq!(advance(&plan, 2, true), Progress::Completed);
    assert_eq!(begin(&Vec::new()), Progress::Completed);
}

#[test]
fn the_settings_of_the_shim_lie_beside_the_first_backup() {
    assert!(is_shim_backup("steam_api_o.dll"));
    assert!(is_shim_backup("steam_api64_o.dll"));
    assert!(!is_shim_backup("steam_api.dll"));
    assert!(!is_shim_backup("Steam_api_o.dll"));
    let files = names(&["/g/game.exe", "/g/bin/steam_api64_o.dll", "/g/steam_api_o.dll"]);
    assert_eq!(find_smokeapi_config_path("/g", &files), "/g/bin/SmokeAPI.config.json");
    assert_eq!(
        find_smokeapi_config_path("/g", &names(&["/g/steam_api.dll"])),
        "/g/SmokeAPI.config.json"
    );
    assert_eq!(find_smokeapi_config_path("/g", &Vec::new()), "/g/SmokeAPI.config.json");
}

#[test]
fn the_settings_of_the_shim_by_default() {
    let c = SmokeAPIConfig::default();
    assert_eq!(
        c.schema,
        "https://raw.githubusercontent.com/acidicoala/SmokeAPI/refs/tags/v4.0.0/res/SmokeAPI.schema.json"
    );
    assert_eq!(c.version, 4);
    assert!(!c.logging);
    assert!(!c.log_steam_http);
    assert_eq!(c.default_app_status, "unlocked");
    assert!(c.override_app_status.is_empty());
    assert!(c.override_dlc_status.is_empty());
    assert!(c.auto_inject_inventory);
    assert!(c.extra_inventory_items.is_empty());
    assert!(c.extra_dlcs.is_empty());
}
