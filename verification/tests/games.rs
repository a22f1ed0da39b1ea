use creamlinux::games::{
    cache_dlcs, clear_all_caches, load_cached_dlcs, parse_action, scan_steam_games, GameAction,
    GameRegistry,
};
use creamlinux::installer::{ErrorKind, Game, InstallerAction, InstallerType};
use creamlinux::scanner::GameInfo;

fn info(id: &str, title: &str, native: bool) -> GameInfo {
    GameInfo {
        id: id.to_string(),
        title: title.to_string(),
        path: format!("/lib/steamapps/common/{}", title),
        native,
        api_files: vec!["steam_api.dll".to_string()],
        cream_installed: false,
        smoke_installed: true,
    }
}

#[test]
fn actions_are_read_from_their_words() {
    assert_eq!(parse_action("install_cream").unwrap(), (InstallerType::Cream, InstallerAction::Install));
    assert_eq!(
        parse_action("uninstall_cream").unwrap(),
        (InstallerType::Cream, InstallerAction::Uninstall)
    );
    assert_eq!(parse_action("install_smoke").unwrap(), (InstallerType::Smoke, InstallerAction::Install));
    assert_eq!(
        parse_action("uninstall_smoke").unwrap(),
        (InstallerType::Smoke, InstallerAction::Uninstall)
    );
    for word in ["", "install", "Install_Cream", "install_cream "] {
        assert_eq!(parse_action(word).unwrap_err().kind(), ErrorKind::FormatFailure);
    }
    let request = GameAction { game_id: "480".to_string(), action: "install_smoke".to_string() };
    assert!(parse_action(&request.action).is_ok());
}

#[test]
fn a_scan_fills_the_table() {
    let mut registry = GameRegistry::new();
    let games = scan_steam_games(&mut registry, vec![info("1", "One", true), info("2", "Two", false)]);
    assert_eq!(games.len(), 2);
    assert_eq!(games[0].id, "1");
    assert_eq!(games[1].title, "Two");
    assert!(games.iter().all(|g| !g.installing));
    assert!(games[1].smoke_installed);
    assert_eq!(registry.len(), 2);
    let one = registry.get_game_info("1").unwrap();
    assert_eq!(one.title, "One");
    assert!(one.native);
    assert_eq!(one.api_files, vec!["steam_api.dll"]);
    assert_eq!(registry.get_game_info("3").unwrap_err().kind(), ErrorKind::NotFound);
}

#[test]
fn a_second_scan_replaces_the_entries() {
    let mut registry = GameRegistry::new();
    scan_steam_games(&mut registry, vec![info("1", "One", true), info("2", "Two", false)]);
    scan_steam_games(&mut registry, vec![info("2", "Two again", true), info("3", "Three", false)]);
    assert_eq!(registry.len(), 3);
    assert_eq!(registry.get_game_info("2").unwrap().title, "Two again");
    assert_eq!(registry.get_game_info("1").unwrap().title, "One");
    let titles: Vec<String> = registry.games().iter().map(|g| g.title.clone()).collect();
    assert_eq!(titles, vec!["One", "Two again", "Three"]);
}

#[test]
fn a_completed_action_shows_in_the_table() {
    let mut registry = GameRegistry::new();
    let mut game = Game::from_info(info("1", "One", true));
    game.installing = true;
    registry.insert(game);
    let after = registry
        .record_action("1", InstallerType::Cream, InstallerAction::Install)
        .unwrap();
    assert!(after.cream_installed);
    assert!(after.smoke_installed);
    assert!(!after.installing);
    assert!(registry.get_game_info("1").unwrap().cream_installed);
    let after = registry
        .record_action("1", InstallerType::Smoke, InstallerAction::Uninstall)
        .unwrap();
    assert!(after.cream_installed);
    assert!(!after.smoke_installed);
    let after = registry
        .record_action("1", InstallerType::Cream, InstallerAction::Uninstall)
        .unwrap();
    assert!(!after.cream_installed);
    let missing = registry.record_action("9", InstallerType::Cream, InstallerAction::Install);
    assert_eq!(missing.unwrap_err().kind(), ErrorKind::NotFound);
    assert_eq!(registry.len(), 1);
}

#[test]
fn dlcs_are_not_kept_on_disk() {
    assert_eq!(cache_dlcs("480", &Vec::new()), Ok(()));
    assert!(load_cached_dlcs("480").is_none());
    assert_eq!(clear_all_caches(), Ok(()));
}
