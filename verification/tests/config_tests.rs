//! Configuration store, paths and device identity.

use sapo::config::{
    create_default_config, generate_device_id, get_bin_dir, get_config_path, parse_config,
    serialize_config, ConfigStore,
};
use sapo::trust::get_trusted;

#[test]
fn test_config_path_contains_sapo() {
    let home = dirs::home_dir().expect("No home dir");
    let config_path = get_config_path(&home.to_string_lossy());
    let path_str = &config_path;

    assert!(path_str.contains(".sapo"), "Config path should contain .sapo");
    assert!(path_str.ends_with("config"), "Config path should end with 'config'");
}

#[test]
fn test_bin_dir_path() {
    let home = dirs::home_dir().expect("No home dir");
    let bin_dir = get_bin_dir(&home.to_string_lossy());
    let path_str = &bin_dir;

    assert!(path_str.contains(".sapo"), "Bin dir should contain .sapo");
    assert!(path_str.ends_with("bin"), "Bin dir should end with 'bin'");
}

#[test]
fn test_is_pro_free_plan() {
    let mut cfg = ConfigStore::new();
    cfg.set_config_value("plan", "free");
    assert!(!cfg.is_pro(), "free should not be pro");
    cfg.set_config_value("plan", "pro");
    assert!(cfg.is_pro(), "pro should be pro");
    cfg.set_config_value("plan", "enterprise");
    assert!(cfg.is_pro(), "enterprise should be pro");
}

#[test]
fn test_trusted_list_parsing() {
    let mut cfg = ConfigStore::new();
    cfg.set_config_value("trusted", "lodash,axios,react");
    let trusted = get_trusted(&cfg);

    assert_eq!(trusted.len(), 3);
    assert!(trusted.contains(&"lodash".to_string()));
    assert!(trusted.contains(&"axios".to_string()));
    assert!(trusted.contains(&"react".to_string()));
}

#[test]
fn test_trusted_list_empty() {
    let mut cfg = ConfigStore::new();
    cfg.set_config_value("trusted", "");
    let trusted = get_trusted(&cfg);

    assert!(trusted.is_empty(), "Empty string should result in empty list");
}

#[test]
fn test_config_line_parsing() {
    let cfg = parse_config("device_id=mac_abc123");

    assert_eq!(cfg.get_config_value("device_id").as_deref(), Some("mac_abc123"));
    assert_eq!(cfg.get_config_value("missing"), None);
}

#[test]
fn test_config_line_with_spaces() {
    let cfg = parse_config("  api_url  =  https://example.com  ");

    assert_eq!(cfg.get_config_value("api_url").as_deref(), Some("https://example.com"));
}

#[test]
fn test_generate_device_id_format() {
    let device_id = generate_device_id("linux");

    assert!(device_id.starts_with("linux_"), "Device ID should start with 'linux_'");
    assert!(device_id.contains('_'), "Device ID should contain underscore");
    assert!(device_id.len() > 30, "Device ID should be at least 30 chars");
}

#[test]
fn test_generate_device_id_unique() {
    let id1 = generate_device_id("linux");
    let id2 = generate_device_id("linux");

    assert_ne!(id1, id2, "Each generated ID should be unique");
}

#[test]
fn test_set_then_get_round_trip() {
    let mut cfg = ConfigStore::new();
    cfg.set_config_value("plan", "free");
    cfg.set_config_value("api_key", "k123");
    assert_eq!(cfg.get_config_value("api_key").as_deref(), Some("k123"));
    cfg.set_config_value("api_key", "k456");
    assert_eq!(cfg.get_config_value("api_key").as_deref(), Some("k456"));
    assert_eq!(cfg.get_config_value("plan").as_deref(), Some("free"));
    assert_eq!(cfg.get_config_value_or("missing", "fallback"), "fallback");
}

#[test]
fn test_serialize_then_parse_round_trip() {
    let mut cfg = ConfigStore::new();
    cfg.set_config_value("plan", "pro");
    cfg.set_config_value("api_url", "http://localhost:1");
    let text = serialize_config(&cfg);
    let back = parse_config(&text);
    assert_eq!(back.get_config_value("plan").as_deref(), Some("pro"));
    assert_eq!(back.get_config_value("api_url").as_deref(), Some("http://localhost:1"));
}

#[test]
fn test_parse_skips_lines_without_separator() {
    let cfg = parse_config("plan=pro\njunk line\n\ndevice_id=x");
    assert_eq!(cfg.get_config_value("plan").as_deref(), Some("pro"));
    assert_eq!(cfg.get_config_value("device_id").as_deref(), Some("x"));
    assert_eq!(cfg.get_config_value("junk line"), None);
}

#[test]
fn test_parse_last_write_wins() {
    let cfg = parse_config("plan=free\nplan=pro");
    assert_eq!(cfg.get_config_value("plan").as_deref(), Some("pro"));
}

#[test]
fn test_default_config_contents() {
    let cfg = create_default_config("linux_test-device");
    assert_eq!(cfg.get_config_value("device_id").as_deref(), Some("linux_test-device"));
    assert_eq!(cfg.get_config_value("plan").as_deref(), Some("free"));
    assert_eq!(cfg.get_config_value("trusted").as_deref(), Some(""));
    assert_eq!(cfg.get_config_value("api_key").as_deref(), Some(""));
    assert!(cfg.get_api_key().is_none(), "empty API key should read as absent");
    assert!(!cfg.is_pro());
}

#[test]
fn test_device_id_generated_once() {
    let mut cfg = ConfigStore::new();
    let first = cfg.get_device_id("linux");
    assert!(first.starts_with("linux_"));
    let second = cfg.get_device_id("linux");
    assert_eq!(first, second, "a stored device ID is stable");
}
