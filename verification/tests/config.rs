use creamlinux::config::{get_config_dir, get_config_path, load_config, update_config, Config};
use creamlinux::stored::Stored;

#[test]
fn test_default_config() {
    let config = Config::default();
    assert!(config.show_disclaimer);
}

#[test]
fn test_config_serialization() {
    let config = Config::default();
    let mut fields = serde_json::Map::new();
    fields.insert(
        "show_disclaimer".to_string(),
        serde_json::Value::Bool(config.show_disclaimer),
    );
    let json = serde_json::to_string(&serde_json::Value::Object(fields)).unwrap();
    let value: serde_json::Value = serde_json::from_str(&json).unwrap();
    let parsed = Config { show_disclaimer: value["show_disclaimer"].as_bool().unwrap() };
    assert_eq!(config.show_disclaimer, parsed.show_disclaimer);
}

#[test]
fn config_paths_lie_below_home() {
    assert_eq!(get_config_dir("/home/u"), "/home/u/.config/creamlinux");
    assert_eq!(get_config_path("/home/u"), "/home/u/.config/creamlinux/config.json");
}

#[test]
fn load_config_by_what_was_found() {
    assert_eq!(load_config(Stored::Absent), Ok((Config { show_disclaimer: true }, true)));
    assert_eq!(
        load_config(Stored::Value(Config { show_disclaimer: false })),
        Ok((Config { show_disclaimer: false }, false))
    );
    assert_eq!(load_config(Stored::Unreadable), Err("Failed to parse config file".to_string()));
}

#[test]
fn update_config_applies_the_change() {
    let updated = update_config(Config::default(), |mut c: Config| {
        c.show_disclaimer = false;
        c
    });
    assert!(!updated.show_disclaimer);
}
