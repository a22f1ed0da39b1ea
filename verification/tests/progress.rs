use InstallerAction::{Install, Uninstall};
use InstallerType::{Cream, Smoke};

use creamlinux::installer::{InstallerAction, InstallerType};
use creamlinux::progress::{emit_progress, emit_scan_progress, milestone, ScanStage, Stage};

#[test]
fn progress_is_a_share_of_a_hundred() {
    let e = emit_progress("Title", "Message", 50, false, false, None);
    assert_eq!(e.title, "Title");
    assert_eq!(e.message, "Message");
    assert_eq!(e.progress, 50);
    assert!(!e.complete);
    assert!(e.instructions.is_none());
    assert_eq!(emit_progress("t", "m", 100, true, false, None).progress, 100);
    assert_eq!(emit_progress("t", "m", 250, true, false, None).progress, 100);
    assert_eq!(emit_progress("t", "m", 0, false, false, None).progress, 0);
}

#[test]
fn the_milestones_of_installing_the_content_unlocker() {
    let e = milestone(Cream, Install, Stage::Started, "Spacewar", 0);
    assert_eq!(e.title, "Installing CreamLinux for Spacewar");
    assert_eq!(e.message, "Fetching DLC list...");
    assert_eq!(e.progress, 10);
    assert!(!e.complete);
    let e = milestone(Cream, Install, Stage::Working, "Spacewar", 0);
    assert_eq!(e.message, "Installing from cache...");
    assert_eq!(e.progress, 50);
    let e = milestone(Cream, Install, Stage::Configuring, "Spacewar", 0);
    assert_eq!(e.message, "Writing DLC configuration...");
    assert_eq!(e.progress, 80);
    let e = milestone(Cream, Install, Stage::Completed, "Spacewar", 12);
    assert_eq!(e.title, "Installation Completed: Spacewar");
    assert_eq!(e.message, "CreamLinux has been installed successfully!");
    assert_eq!(e.progress, 100);
    assert!(e.complete);
    assert!(e.show_instructions);
    let i = e.instructions.unwrap();
    assert_eq!(i.type_, "cream_install");
    assert_eq!(i.command, "sh ./cream.sh %command%");
    assert_eq!(i.game_title, "Spacewar");
    assert_eq!(i.dlc_count, Some(12));
}

#[test]
fn the_milestones_of_the_other_actions() {
    let e = milestone(Cream, Uninstall, Stage::Started, "G", 0);
    assert_eq!(e.title, "Uninstalling CreamLinux from G");
    assert_eq!(e.message, "Removing CreamLinux files...");
    assert_eq!(e.progress, 50);
    let e = milestone(Cream, Uninstall, Stage::Completed, "G", 0);
    assert_eq!(e.title, "Uninstallation Completed: G");
    assert_eq!(e.message, "CreamLinux has been removed successfully!");
    assert!(e.complete && !e.show_instructions && e.instructions.is_none());
    let e = milestone(Smoke, Install, Stage::Started, "G", 0);
    assert_eq!(e.title, "Installing SmokeAPI for G");
    assert_eq!(e.message, "Installing from cache...");
    assert_eq!(e.progress, 50);
    let e = milestone(Smoke, Install, Stage::Completed, "G", 3);
    assert_eq!(e.message, "SmokeAPI has been installed successfully!");
    assert!(e.instructions.is_none());
    let e = milestone(Smoke, Uninstall, Stage::Working, "G", 0);
    assert_eq!(e.title, "Uninstalling SmokeAPI from G");
    assert_eq!(e.message, "Removing SmokeAPI files...");
    let e = milestone(Smoke, Uninstall, Stage::Completed, "G", 0);
    assert_eq!(e.message, "SmokeAPI has been removed successfully!");
    assert_eq!(e.progress, 100);
}

#[test]
fn the_stages_of_a_scan() {
    assert_eq!(
        emit_scan_progress(ScanStage::Locating),
        ("Locating Steam libraries...".to_string(), 10)
    );
    assert_eq!(
        emit_scan_progress(ScanStage::Finding),
        ("Finding Steam libraries...".to_string(), 15)
    );
    assert_eq!(
        emit_scan_progress(ScanStage::LibrariesFound(2)),
        ("Found 2 Steam libraries. Starting game scan...".to_string(), 20)
    );
    assert_eq!(
        emit_scan_progress(ScanStage::GamesFound(37)),
        ("Found 37 games. Processing...".to_string(), 90)
    );
    assert_eq!(
        emit_scan_progress(ScanStage::Complete(0)),
        ("Scan complete. Found 0 games.".to_string(), 100)
    );
}
