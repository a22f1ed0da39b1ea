use std::collections::HashMap;

use InstallerAction::{Install, Uninstall};
use InstallerType::{Cream, Smoke};

use creamlinux::dlc::{DlcInfo, DlcInfoWithState};
use creamlinux::installer::{
    check_transition, install_cream_with_dlcs, install_creamlinux, install_smokeapi, needs_dlc_list,
    process_action, resolve_platform_conflict, uninstall_creamlinux, uninstall_smokeapi,
    ActionContext, ActionPlan, ErrorKind, Game, InstallerAction, InstallerError, InstallerType,
};
use creamlinux::shim::{
    conclude_smokeapi_install, conclude_smokeapi_uninstall, plan_shim_install, plan_shim_uninstall,
    select_artifact, shim_target, shim_targets, unit_outcome, ShimWork, UnitReport,
};
use creamlinux::manifest::GameManifest;
use creamlinux::plan::{advance, begin, After, FileOp, Progress, Step};

fn game(native: bool, api_files: &[&str]) -> Game {
    Game {
        id: "480".to_string(),
        title: "Spacewar".to_string(),
        path: "/games/spacewar".to_string(),
        native,
        api_files: api_files.iter().map(|s| s.to_string()).collect(),
        cream_installed: false,
        smoke_installed: false,
        installing: false,
    }
}

fn context(files: &[&str]) -> ActionContext {
    ActionContext {
        cached_files: files.iter().map(|s| s.to_string()).collect(),
        cached_version: "v1.2".to_string(),
        manifest: GameManifest::with_smokeapi("s9".to_string()),
        dlcs: vec![DlcInfo { appid: "10".to_string(), name: "Ten".to_string() }],
    }
}

fn show(op: &FileOp) -> String {
    match op {
        FileOp::Copy { from, to } => format!("copy {} -> {}", from, to),
        FileOp::Remove { path } => format!("remove {}", path),
        FileOp::Rename { from, to } => format!("rename {} -> {}", from, to),
        FileOp::Write { path, contents } => format!("write {} ({} bytes)", path, contents.len()),
        FileOp::MakeExecutable { path } => format!("chmod {}", path),
        FileOp::StoreManifest { dir, manifest } => format!(
            "manifest {} smoke={:?} cream={:?}",
            dir, manifest.smokeapi_version, manifest.creamlinux_version
        ),
        FileOp::RemoveManifest { dir } => format!("no manifest {}", dir),
        FileOp::StoreVersions { dir, versions } => format!(
            "versions {} smoke={} cream={}",
            dir, versions.smokeapi.latest, versions.creamlinux.latest
        ),
        FileOp::RemoveTree { path } => format!("remove tree {}", path),
    }
}

fn shown(plan: &Vec<Step>) -> Vec<String> {
    plan.iter().map(|s| show(&s.op)).collect()
}

// Carries a plan out on a disk held in memory; `fails` names the operations,
// by their text, that are made to fail.
fn carry_out(plan: &Vec<Step>, disk: &mut HashMap<String, Vec<u8>>, fails: &[&str]) -> bool {
    let mut at = begin(plan);
    loop {
        let pc = match at {
            Progress::At(pc) => pc,
            Progress::Completed => return true,
            Progress::GivenUp => return false,
        };
        let op = &plan[pc].op;
        let text = show(op);
        let ok = if fails.contains(&text.as_str()) {
            false
        } else {
            match op {
                FileOp::Copy { from, to } => match disk.get(from).cloned() {
                    Some(bytes) => {
                        disk.insert(to.clone(), bytes);
                        true
                    }
                    None => false,
                },
                FileOp::Remove { path } => disk.remove(path).is_some(),
                FileOp::Rename { from, to } => match disk.remove(from) {
                    Some(bytes) => {
                        disk.insert(to.clone(), bytes);
                        true
                    }
                    None => false,
                },
                FileOp::Write { path, contents } => {
                    disk.insert(path.clone(), contents.clone().into_bytes());
                    true
                }
                _ => true,
            }
        };
        at = advance(plan, pc, ok);
    }
}

#[test]
fn content_unlocker_on_a_foreign_title_is_refused_without_any_work() {
    let g = game(false, &["steam_api.dll"]);
    let ctx = context(&["/cache/creamlinux/v1.2/cream.sh"]);
    let refused = install_creamlinux("480", &g, &ctx);
    match refused {
        Err(e) => {
            assert_eq!(e.kind(), ErrorKind::PreconditionViolation);
            assert_eq!(e.message(), "CreamLinux can only be installed on native Linux games");
        }
        Ok(_) => panic!("a plan came back"),
    }
    let refused = process_action("480", InstallerType::Cream, InstallerAction::Install, &g, &ctx);
    assert!(matches!(refused, Err(InstallerError::PreconditionViolation(_))));
    let refused = install_cream_with_dlcs("480", &g, &ctx, &Vec::new());
    assert!(matches!(refused, Err(InstallerError::PreconditionViolation(_))));
}

#[test]
fn every_illegal_transition_is_refused() {
    let native = game(true, &["steam_api.dll"]);
    let foreign = game(false, &["steam_api.dll"]);
    let bare = game(false, &[]);
    let ctx = context(&["/c/cream.sh"]);
    assert!(check_transition(Cream, Install, &native).is_ok());
    assert!(check_transition(Cream, Uninstall, &native).is_ok());
    assert!(check_transition(Smoke, Install, &foreign).is_ok());
    assert!(check_transition(Smoke, Uninstall, &foreign).is_ok());
    assert!(check_transition(Smoke, Uninstall, &bare).is_ok());
    for (kind, action, g) in [
        (Cream, Install, &foreign),
        (Cream, Uninstall, &foreign),
        (Smoke, Install, &native),
        (Smoke, Uninstall, &native),
        (Smoke, Install, &bare),
    ] {
        let refused = check_transition(kind, action, g);
        assert!(matches!(refused, Err(InstallerError::PreconditionViolation(_))));
        let refused = process_action("480", kind, action, g, &ctx);
        assert!(matches!(refused, Err(InstallerError::PreconditionViolation(_))));
    }
    assert_eq!(
        check_transition(Smoke, Install, &bare).unwrap_err().message(),
        "No Steam API DLLs found to patch. SmokeAPI cannot be installed."
    );
    assert_eq!(
        uninstall_creamlinux(&foreign, &GameManifest::default()).unwrap_err().message(),
        "CreamLinux can only be uninstalled from native Linux games"
    );
    assert_eq!(
        install_smokeapi(&native).unwrap_err().message(),
        "SmokeAPI can only be installed on Proton/Windows games"
    );
    assert_eq!(
        uninstall_smokeapi(&native).unwrap_err().message(),
        "SmokeAPI can only be uninstalled from Proton/Windows games"
    );
}

#[test]
fn content_unlocker_installation_is_laid_out_in_order() {
    let g = game(true, &[]);
    let ctx = context(&[
        "/cache/creamlinux/v1.2/cream.sh",
        "/cache/creamlinux/v1.2/lib64Creamlinux.so",
    ]);
    let plan = install_creamlinux("480", &g, &ctx).unwrap();
    assert_eq!(
        shown(&plan),
        vec![
            "copy /cache/creamlinux/v1.2/cream.sh -> /games/spacewar/cream.sh",
            "chmod /games/spacewar/cream.sh",
            "copy /cache/creamlinux/v1.2/lib64Creamlinux.so -> /games/spacewar/lib64Creamlinux.so",
            "write /games/spacewar/cream_api.ini (129 bytes)",
            "manifest /games/spacewar smoke=Some(\"s9\") cream=Some(\"v1.2\")",
        ]
    );
    assert!(plan.iter().all(|s| s.on_success == After::Next && s.on_failure == After::Fail));
    match &plan[3].op {
        FileOp::Write { contents, .. } => assert!(contents.ends_with("[dlc]\n10 = Ten\n")),
        _ => panic!("not a write"),
    }
}

#[test]
fn a_failed_copy_ends_the_installation_before_the_manifest() {
    let g = game(true, &[]);
    let ctx = context(&["/c/cream.sh", "/c/lib.so"]);
    let plan = install_creamlinux("480", &g, &ctx).unwrap();
    let mut disk = HashMap::new();
    disk.insert("/c/cream.sh".to_string(), vec![1]);
    disk.insert("/c/lib.so".to_string(), vec![2]);
    let mut steps_run = Vec::new();
    let mut at = begin(&plan);
    while let Progress::At(pc) = at {
        steps_run.push(pc);
        at = advance(&plan, pc, pc != 2);
    }
    assert_eq!(at, Progress::GivenUp);
    assert_eq!(steps_run, vec![0, 1, 2]);
    assert!(carry_out(&plan, &mut disk, &[]));
    assert_eq!(disk.get("/games/spacewar/lib.so"), Some(&vec![2]));
}

#[test]
fn content_unlocker_without_cached_files_is_not_found() {
    let g = game(true, &[]);
    let err = install_creamlinux("480", &g, &context(&[])).unwrap_err();
    assert_eq!(err.kind(), ErrorKind::NotFound);
    assert_eq!(err.message(), "No CreamLinux files found in cache");
}

#[test]
fn selected_dlcs_reach_the_configuration() {
    let g = game(true, &[]);
    let ctx = context(&["/c/cream.sh"]);
    let selected = vec![
        DlcInfoWithState { appid: "1".to_string(), name: "On".to_string(), enabled: true },
        DlcInfoWithState { appid: "2".to_string(), name: "Off".to_string(), enabled: false },
    ];
    let plan = install_cream_with_dlcs("480", &g, &ctx, &selected).unwrap();
    match &plan[2].op {
        FileOp::Write { path, contents } => {
            assert_eq!(path, "/games/spacewar/cream_api.ini");
            assert!(contents.ends_with("[dlc]\n1 = On\n"));
        }
        _ => panic!("not a write"),
    }
}

#[test]
fn content_unlocker_removal_tries_every_file_and_then_the_record() {
    let g = game(true, &[]);
    let plan = uninstall_creamlinux(&g, &GameManifest::with_creamlinux("v1".to_string())).unwrap();
    assert_eq!(
        shown(&plan),
        vec![
            "remove /games/spacewar/cream.sh",
            "remove /games/spacewar/lib32Creamlinux.so",
            "remove /games/spacewar/lib64Creamlinux.so",
            "remove /games/spacewar/cream_api.ini",
            "no manifest /games/spacewar",
        ]
    );
    for step in &plan[..4] {
        assert_eq!(step.on_failure, After::Next);
    }
    assert_eq!(plan[4].on_failure, After::Fail);
    let mut both = GameManifest::with_creamlinux("v1".to_string());
    both.smokeapi_version = Some("s1".to_string());
    let plan = uninstall_creamlinux(&g, &both).unwrap();
    assert_eq!(shown(&plan)[4], "manifest /games/spacewar smoke=Some(\"s1\") cream=None");
    let mut disk = HashMap::new();
    assert!(carry_out(&plan, &mut disk, &[]));
}

#[test]
fn shim_targets_lie_beside_their_binaries() {
    let t = shim_target("/games/x", "bin/steam_api64.dll");
    assert_eq!(t.api_file, "bin/steam_api64.dll");
    assert_eq!(t.original, "/games/x/bin/steam_api64.dll");
    assert_eq!(t.backup, Some("/games/x/bin/steam_api64_o.dll".to_string()));
    assert!(t.wide);
    let t = shim_target("/games/x", "steam_api.dll");
    assert_eq!(t.original, "/games/x/steam_api.dll");
    assert_eq!(t.backup, Some("/games/x/steam_api_o.dll".to_string()));
    assert!(!t.wide);
    let t = shim_target("/games/x", "lib/other.so");
    assert_eq!(t.backup, None);
}

#[test]
fn the_shim_is_chosen_by_width() {
    let cached = vec![
        "/c/readme.txt".to_string(),
        "/c/SmokeAPI32.dll".to_string(),
        "/c/SmokeAPI64.dll".to_string(),
    ];
    assert_eq!(select_artifact(&cached, false), Some(1));
    assert_eq!(select_artifact(&cached, true), Some(2));
    assert_eq!(select_artifact(&cached[..2].to_vec(), true), None);
    assert_eq!(select_artifact(&Vec::new(), false), None);
}

#[test]
fn shim_installation_captures_the_original_first() {
    let t = shim_target("/g", "steam_api64.dll");
    let cached = vec!["/c/SmokeAPI32.dll".to_string(), "/c/SmokeAPI64.dll".to_string()];
    let planned = plan_shim_install(&t, false, true, &cached);
    assert!(planned.failure.is_none());
    assert_eq!(
        shown(&planned.steps),
        vec![
            "copy /g/steam_api64.dll -> /g/steam_api64_o.dll",
            "copy /c/SmokeAPI64.dll -> /g/steam_api64.dll",
        ]
    );
    let planned = plan_shim_install(&t, true, true, &cached);
    assert!(planned.failure.is_none());
    assert_eq!(shown(&planned.steps), vec!["copy /c/SmokeAPI64.dll -> /g/steam_api64.dll"]);
    let planned = plan_shim_install(&t, false, false, &cached);
    assert_eq!(shown(&planned.steps), vec!["copy /c/SmokeAPI64.dll -> /g/steam_api64.dll"]);
}

#[test]
fn shim_installation_reports_what_is_missing() {
    let t = shim_target("/g", "steam_api64.dll");
    let only32 = vec!["/c/SmokeAPI32.dll".to_string()];
    let planned = plan_shim_install(&t, false, true, &only32);
    let err = planned.failure.unwrap();
    assert_eq!(err.kind(), ErrorKind::NotFound);
    assert_eq!(err.message(), "No matching 64-bit SmokeAPI DLL found in cache");
    assert_eq!(shown(&planned.steps), vec!["copy /g/steam_api64.dll -> /g/steam_api64_o.dll"]);
    let planned = plan_shim_install(&t, true, true, &only32);
    assert_eq!(planned.failure.unwrap().kind(), ErrorKind::NotFound);
    assert!(planned.steps.is_empty());
    let narrow = shim_target("/g", "steam_api.dll");
    let planned = plan_shim_install(&narrow, false, true, &vec!["/c/SmokeAPI64.dll".to_string()]);
    assert_eq!(
        planned.failure.unwrap().message(),
        "No matching 32-bit SmokeAPI DLL found in cache"
    );
    let odd = shim_target("/g", "steam_api.bin");
    let planned = plan_shim_install(&odd, false, true, &only32);
    assert_eq!(planned.failure.unwrap().kind(), ErrorKind::FormatFailure);
    assert!(planned.steps.is_empty());
}

#[test]
fn a_missing_shim_leaves_the_binary_and_keeps_its_original() {
    let t = shim_target("/g", "steam_api64.dll");
    let only32 = vec!["/c/SmokeAPI32.dll".to_string()];
    let mut disk: HashMap<String, Vec<u8>> = HashMap::new();
    disk.insert("/c/SmokeAPI32.dll".to_string(), vec![32]);
    disk.insert("/g/steam_api64.dll".to_string(), vec![7, 7]);
    let planned = plan_shim_install(&t, false, true, &only32);
    assert!(carry_out(&planned.steps, &mut disk, &[]));
    assert_eq!(disk["/g/steam_api64.dll"], vec![7, 7]);
    assert_eq!(disk["/g/steam_api64_o.dll"], vec![7, 7]);
    let report = unit_outcome(None, planned.failure);
    assert_eq!(report.unwrap().kind(), ErrorKind::NotFound);
    assert!(carry_out(&plan_shim_uninstall(&t, true), &mut disk, &[]));
    assert_eq!(disk.len(), 2);
    assert_eq!(disk["/g/steam_api64.dll"], vec![7, 7]);
}

#[test]
fn a_failed_step_is_reported_before_a_missing_shim() {
    let failed = InstallerError::IoFailure("disk full".to_string());
    let missing = InstallerError::NotFound("no shim".to_string());
    assert_eq!(unit_outcome(Some(failed), Some(missing)).unwrap().kind(), ErrorKind::IoFailure);
    let missing = InstallerError::NotFound("no shim".to_string());
    assert_eq!(unit_outcome(None, Some(missing)).unwrap().kind(), ErrorKind::NotFound);
    assert!(unit_outcome(None, None).is_none());
}

#[test]
fn install_then_uninstall_restores_the_original_bytes() {
    let g = game(false, &["steam_api.dll", "bin/steam_api64.dll"]);
    let cached = vec!["/c/SmokeAPI32.dll".to_string(), "/c/SmokeAPI64.dll".to_string()];
    let mut disk: HashMap<String, Vec<u8>> = HashMap::new();
    disk.insert("/c/SmokeAPI32.dll".to_string(), vec![32]);
    disk.insert("/c/SmokeAPI64.dll".to_string(), vec![64]);
    disk.insert("/games/spacewar/steam_api.dll".to_string(), vec![1, 2, 3]);
    disk.insert("/games/spacewar/bin/steam_api64.dll".to_string(), vec![4, 5, 6, 7]);
    let before = disk.clone();

    for t in install_smokeapi(&g).unwrap() {
        let backup = t.backup.clone().unwrap();
        let planned =
            plan_shim_install(&t, disk.contains_key(&backup), disk.contains_key(&t.original), &cached);
        assert!(planned.failure.is_none());
        assert!(carry_out(&planned.steps, &mut disk, &[]));
    }
    assert_eq!(disk["/games/spacewar/steam_api.dll"], vec![32]);
    assert_eq!(disk["/games/spacewar/bin/steam_api64.dll"], vec![64]);
    assert_eq!(disk["/games/spacewar/steam_api_o.dll"], vec![1, 2, 3]);

    // a second installation keeps the first backup
    for t in install_smokeapi(&g).unwrap() {
        let backup = t.backup.clone().unwrap();
        let planned =
            plan_shim_install(&t, disk.contains_key(&backup), disk.contains_key(&t.original), &cached);
        assert!(planned.failure.is_none());
        assert!(carry_out(&planned.steps, &mut disk, &[]));
    }
    assert_eq!(disk["/games/spacewar/bin/steam_api64_o.dll"], vec![4, 5, 6, 7]);

    for t in uninstall_smokeapi(&g).unwrap() {
        let backup = t.backup.clone().unwrap();
        let plan = plan_shim_uninstall(&t, disk.contains_key(&backup));
        assert!(carry_out(&plan, &mut disk, &[]));
    }
    assert_eq!(disk, before);
}

#[test]
fn uninstall_falls_back_to_copying_when_the_backup_cannot_be_moved() {
    let t = shim_target("/g", "steam_api.dll");
    let plan = plan_shim_uninstall(&t, true);
    assert_eq!(
        shown(&plan),
        vec![
            "remove /g/steam_api.dll",
            "rename /g/steam_api_o.dll -> /g/steam_api.dll",
            "copy /g/steam_api_o.dll -> /g/steam_api.dll",
            "remove /g/steam_api_o.dll",
        ]
    );
    let mut disk: HashMap<String, Vec<u8>> = HashMap::new();
    disk.insert("/g/steam_api.dll".to_string(), vec![9]);
    disk.insert("/g/steam_api_o.dll".to_string(), vec![1]);
    assert!(carry_out(&plan, &mut disk, &["rename /g/steam_api_o.dll -> /g/steam_api.dll"]));
    assert_eq!(disk.len(), 1);
    assert_eq!(disk["/g/steam_api.dll"], vec![1]);

    // the shim is already gone: its removal fails and is passed over
    let mut disk: HashMap<String, Vec<u8>> = HashMap::new();
    disk.insert("/g/steam_api_o.dll".to_string(), vec![1]);
    assert!(carry_out(&plan, &mut disk, &[]));
    assert_eq!(disk["/g/steam_api.dll"], vec![1]);
}

#[test]
fn a_binary_without_backup_is_left_alone() {
    let t = shim_target("/g", "steam_api.dll");
    assert!(plan_shim_uninstall(&t, false).is_empty());
    let odd = shim_target("/g", "steam_api.bin");
    assert!(plan_shim_uninstall(&odd, true).is_empty());
}

#[test]
fn the_record_follows_the_units() {
    let g = "/games/spacewar";
    let fine = vec![UnitReport { api_file: "steam_api.dll".to_string(), error: None }];
    let plan =
        conclude_smokeapi_install(g, &fine, &GameManifest::with_creamlinux("c".to_string()), "s2")
            .unwrap();
    assert_eq!(shown(&plan), vec!["manifest /games/spacewar smoke=Some(\"s2\") cream=Some(\"c\")"]);
    let broken = vec![
        UnitReport { api_file: "a.dll".to_string(), error: None },
        UnitReport {
            api_file: "b.dll".to_string(),
            error: Some(InstallerError::IoFailure("disk full".to_string())),
        },
    ];
    let err = conclude_smokeapi_install(g, &broken, &GameManifest::default(), "s2").unwrap_err();
    assert_eq!(err.kind(), ErrorKind::IoFailure);
    let plan =
        conclude_smokeapi_uninstall("/games/spacewar", &GameManifest::with_smokeapi("s".to_string()));
    assert_eq!(shown(&plan), vec!["no manifest /games/spacewar"]);
}

#[test]
fn actions_are_dispatched_by_kind() {
    let native = game(true, &[]);
    let foreign = game(false, &["steam_api.dll"]);
    let ctx = context(&["/c/cream.sh"]);
    assert!(matches!(
        process_action("480", Cream, Install, &native, &ctx),
        Ok(ActionPlan::Steps(plan)) if plan.len() == 4
    ));
    assert!(matches!(
        process_action("480", Cream, Uninstall, &native, &ctx),
        Ok(ActionPlan::Steps(plan)) if plan.len() == 5
    ));
    assert!(matches!(
        process_action("480", Smoke, Install, &foreign, &ctx),
        Ok(ActionPlan::Units(units)) if units.len() == 1
    ));
    assert!(matches!(
        process_action("480", Smoke, Uninstall, &foreign, &ctx),
        Ok(ActionPlan::Units(units)) if units[0].original == "/games/spacewar/steam_api.dll"
    ));
}

#[test]
fn conflicts_are_resolved_whatever_the_platform() {
    let foreign = game(false, &["steam_api.dll"]);
    let native = game(true, &["steam_api.dll"]);
    let m = GameManifest::with_creamlinux("v".to_string());
    match resolve_platform_conflict("cream-to-proton", &foreign, &m) {
        Ok(ActionPlan::Steps(plan)) => assert_eq!(plan.len(), 5),
        _ => panic!("no steps"),
    }
    match resolve_platform_conflict("smoke-to-native", &native, &m) {
        Ok(ActionPlan::Units(units)) => assert_eq!(units.len(), 1),
        _ => panic!("no units"),
    }
    let err = resolve_platform_conflict("something-else", &native, &m).unwrap_err();
    assert_eq!(err.kind(), ErrorKind::FormatFailure);
}

#[test]
fn every_error_has_its_kind_and_text() {
    let all = vec![
        (InstallerError::NotFound("a".to_string()), ErrorKind::NotFound, "a"),
        (InstallerError::IoFailure("b".to_string()), ErrorKind::IoFailure, "b"),
        (InstallerError::TransferFailure("c".to_string()), ErrorKind::TransferFailure, "c"),
        (InstallerError::FormatFailure("d".to_string()), ErrorKind::FormatFailure, "d"),
        (
            InstallerError::PreconditionViolation("e".to_string()),
            ErrorKind::PreconditionViolation,
            "e",
        ),
        (InstallerError::Cancelled, ErrorKind::Cancelled, "Operation cancelled by user"),
    ];
    for (err, kind, text) in all {
        assert_eq!(err.kind(), kind);
        assert_eq!(err.message(), text);
    }
}

#[test]
fn installing_twice_leaves_the_disk_as_installing_once() {
    let g = game(true, &[]);
    let ctx = context(&["/c/cream.sh", "/c/lib32Creamlinux.so", "/c/lib64Creamlinux.so"]);
    let plan = install_creamlinux("480", &g, &ctx).unwrap();
    let mut disk: HashMap<String, Vec<u8>> = HashMap::new();
    disk.insert("/c/cream.sh".to_string(), vec![1]);
    disk.insert("/c/lib32Creamlinux.so".to_string(), vec![2]);
    disk.insert("/c/lib64Creamlinux.so".to_string(), vec![3]);
    disk.insert("/games/spacewar/cream.sh".to_string(), vec![9, 9]);
    assert!(carry_out(&plan, &mut disk, &[]));
    let once = disk.clone();
    assert_eq!(once["/games/spacewar/cream.sh"], vec![1]);
    assert!(carry_out(&plan, &mut disk, &[]));
    assert_eq!(disk, once);
}

#[test]
fn backups_keep_the_case_of_the_extension() {
    let t = shim_target("/g", "Bin/Steam_API64.DLL");
    assert_eq!(t.original, "/g/Bin/Steam_API64.DLL");
    assert_eq!(t.backup, Some("/g/Bin/Steam_API64_o.DLL".to_string()));
    assert!(t.wide);
}

#[test]
fn every_binary_gets_its_turn_and_its_report() {
    let api = vec!["a/steam_api.dll".to_string(), "b/steam_api64.dll".to_string(), "c.dll".to_string()];
    let mut work = ShimWork::new(shim_targets("/g", &api));
    assert!(!work.is_finished());
    assert_eq!(work.current().unwrap().api_file, "a/steam_api.dll");
    work = work.record(Some(InstallerError::IoFailure("disk full".to_string())));
    assert_eq!(work.current().unwrap().api_file, "b/steam_api64.dll");
    work = work.record(None);
    assert_eq!(work.current().unwrap().original, "/g/c.dll");
    work = work.record(Some(InstallerError::NotFound("no shim".to_string())));
    assert!(work.current().is_none());
    assert!(work.is_finished());
    work = work.record(None);
    let reports = work.into_reports();
    let got: Vec<(String, Option<ErrorKind>)> =
        reports.iter().map(|r| (r.api_file.clone(), r.error.as_ref().map(|e| e.kind()))).collect();
    assert_eq!(
        got,
        vec![
            ("a/steam_api.dll".to_string(), Some(ErrorKind::IoFailure)),
            ("b/steam_api64.dll".to_string(), None),
            ("c.dll".to_string(), Some(ErrorKind::NotFound)),
        ]
    );
    let empty = ShimWork::new(Vec::new());
    assert!(empty.is_finished());
    assert!(empty.into_reports().is_empty());
}

#[test]
fn only_the_content_unlocker_asks_for_the_dlc_list() {
    assert!(needs_dlc_list(Cream, Install));
    assert!(!needs_dlc_list(Cream, Uninstall));
    assert!(!needs_dlc_list(Smoke, Install));
    assert!(!needs_dlc_list(Smoke, Uninstall));
}
