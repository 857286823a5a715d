//! The runtime-monitor controller: the threat log query, the flag, and the
//! enable flow's plan gate.

use sapo::config::ConfigStore;
use sapo::monitor::{
    count_valid, disable, enable_begin, format_threat_type, get_monitor_log_path,
    get_monitor_script_path, is_monitoring_enabled, mark_enabled, threats, toggle, EnableOutcome,
    ToggleAction,
};

fn sample_log() -> Vec<String> {
    vec![
        "{\"threatType\":\"credential_access\",\"packageName\":\"evil-a\",\"blocked\":true,\"details\":{\"path\":\"/home/u/.ssh/id_rsa\"}}".to_string(),
        "not json at all".to_string(),
        "{\"threatType\":\"network_exfil\",\"packageName\":\"evil-b\",\"blocked\":false,\"details\":{\"url\":\"http://x.example\"}}".to_string(),
        "{broken".to_string(),
        "{\"threatType\":\"process_spawn\",\"packageName\":\"evil-c\",\"blocked\":false}".to_string(),
    ]
}

#[test]
fn test_threats_returns_last_valid_in_order() {
    let lines = sample_log();
    let last_two = threats(&lines, 2);
    assert_eq!(last_two.len(), 2);
    assert_eq!(last_two[0].package_name, "evil-b");
    assert_eq!(last_two[1].package_name, "evil-c");
}

#[test]
fn test_threats_skips_malformed_without_counting() {
    let lines = sample_log();
    assert_eq!(count_valid(&lines), 3, "two malformed lines do not count");
    let all = threats(&lines, 10);
    assert_eq!(all.len(), 3, "asking for more than the total returns the total");
    assert_eq!(all[0].package_name, "evil-a");
    assert_eq!(all[1].package_name, "evil-b");
    assert_eq!(all[2].package_name, "evil-c");
}

#[test]
fn test_threats_zero_requested() {
    let lines = sample_log();
    assert!(threats(&lines, 0).is_empty());
}

#[test]
fn test_threats_empty_log() {
    let lines: Vec<String> = Vec::new();
    assert!(threats(&lines, 20).is_empty());
}

#[test]
fn test_threat_record_fields_parsed() {
    let lines = sample_log();
    let all = threats(&lines, 10);
    assert_eq!(all[0].threat_type, "credential_access");
    assert!(all[0].blocked);
    assert_eq!(all[0].path.as_deref(), Some("/home/u/.ssh/id_rsa"));
    assert_eq!(all[0].url, None);
    assert_eq!(all[1].url.as_deref(), Some("http://x.example"));
    assert!(!all[1].blocked);
    assert_eq!(all[2].path, None);
}

#[test]
fn test_threat_record_defaults_for_missing_fields() {
    let lines = vec!["{}".to_string()];
    let all = threats(&lines, 5);
    assert_eq!(all.len(), 1);
    assert_eq!(all[0].threat_type, "unknown");
    assert_eq!(all[0].package_name, "unknown");
    assert!(!all[0].blocked);
}

#[test]
fn test_format_threat_type_labels() {
    assert_eq!(format_threat_type("credential_access"), "Credential File Access");
    assert_eq!(format_threat_type("network_exfil"), "Suspicious Network Request");
    assert_eq!(format_threat_type("credential_exfil"), "Credential Exfiltration Attempt");
    assert_eq!(format_threat_type("process_spawn"), "Suspicious Process Spawn");
    assert_eq!(format_threat_type("env_access"), "Sensitive Env Var Access");
    assert_eq!(format_threat_type("suspicious_connection"), "Suspicious Network Connection");
    assert_eq!(format_threat_type("something_else"), "something_else");
}

#[test]
fn test_monitoring_flag_values() {
    let mut cfg = ConfigStore::new();
    assert!(!is_monitoring_enabled(&cfg));
    cfg.set_config_value("runtime_monitoring", "true");
    assert!(is_monitoring_enabled(&cfg));
    cfg.set_config_value("runtime_monitoring", "1");
    assert!(is_monitoring_enabled(&cfg));
    cfg.set_config_value("runtime_monitoring", "false");
    assert!(!is_monitoring_enabled(&cfg));
    cfg.set_config_value("runtime_monitoring", "yes");
    assert!(!is_monitoring_enabled(&cfg));
}

#[test]
fn test_disable_and_mark_enabled() {
    let mut cfg = ConfigStore::new();
    mark_enabled(&mut cfg);
    assert!(is_monitoring_enabled(&cfg));
    disable(&mut cfg);
    assert!(!is_monitoring_enabled(&cfg));
}

#[test]
fn test_toggle_turns_off_or_asks_for_enable() {
    let mut cfg = ConfigStore::new();
    mark_enabled(&mut cfg);
    assert!(matches!(toggle(&mut cfg), ToggleAction::Disabled));
    assert!(!is_monitoring_enabled(&cfg));
    assert!(matches!(toggle(&mut cfg), ToggleAction::NeedsEnable));
    assert!(!is_monitoring_enabled(&cfg), "a toggle alone never sets the flag");
}

#[test]
fn test_enable_requires_pro() {
    let mut cfg = ConfigStore::new();
    cfg.set_config_value("plan", "free");
    let r = enable_begin(&mut cfg, "linux");
    assert!(matches!(r, EnableOutcome::ProRequired));
    assert!(!is_monitoring_enabled(&cfg), "the flag stays off on a free plan");
    assert_eq!(cfg.get_config_value("plan").as_deref(), Some("free"));
}

#[test]
fn test_enable_on_pro_reports_download_failure() {
    let mut cfg = ConfigStore::new();
    cfg.set_config_value("plan", "pro");
    cfg.set_config_value("api_url", "http://127.0.0.1:9");
    cfg.set_config_value("device_id", "linux_x");
    let r = enable_begin(&mut cfg, "linux");
    assert!(matches!(r, EnableOutcome::Failed(_)), "an unreachable service fails the fetch");
    assert!(!is_monitoring_enabled(&cfg));
}

#[test]
fn test_monitor_paths() {
    let script = get_monitor_script_path("/home/u");
    assert_eq!(script, "/home/u/.sapo/monitor.js");
    let log = get_monitor_log_path("/home/u");
    assert_eq!(log, "/home/u/.sapo/monitor.log");
}
