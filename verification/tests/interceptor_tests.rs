//! The install interceptor: command classification, package extraction,
//! and the monitoring-injection decision.

use sapo::config::ConfigStore;
use sapo::interceptor::{
    extract_packages, is_install_command, lockfile_gate, lockfile_name, node_options_value,
    should_use_runtime_monitoring, threat_report_url, wrap_plan, PlanKind,
};
use sapo::monitor::mark_enabled;

fn args(list: &[&str]) -> Vec<String> {
    list.iter().map(|s| s.to_string()).collect()
}

#[test]
fn test_non_install_commands_pass_through() {
    let (kind, pkgs) = wrap_plan("npm", &args(&["run", "test"]), false);
    assert!(matches!(kind, PlanKind::Passthrough));
    assert!(pkgs.is_empty());
    let (kind, _) = wrap_plan("npm", &args(&["audit"]), false);
    assert!(matches!(kind, PlanKind::Passthrough));
    let (kind, _) = wrap_plan("cargo", &args(&["install", "x"]), false);
    assert!(matches!(kind, PlanKind::Passthrough), "an unknown manager is never intercepted");
}

#[test]
fn test_disabled_marker_passes_everything_through() {
    let (kind, _) = wrap_plan("npm", &args(&["install", "lodash"]), true);
    assert!(matches!(kind, PlanKind::Passthrough));
}

#[test]
fn test_install_with_packages_scans_them_in_order() {
    let (kind, pkgs) = wrap_plan("npm", &args(&["install", "lodash", "axios"]), false);
    assert!(matches!(kind, PlanKind::ScanPackages));
    assert_eq!(pkgs, vec!["lodash".to_string(), "axios".to_string()]);
}

#[test]
fn test_install_without_packages_checks_lockfile() {
    let (kind, pkgs) = wrap_plan("npm", &args(&["install"]), false);
    assert!(matches!(kind, PlanKind::ScanLockfile));
    assert!(pkgs.is_empty());
    let (kind, _) = wrap_plan("yarn", &args(&[]), false);
    assert!(matches!(kind, PlanKind::ScanLockfile), "bare yarn is an install");
}

#[test]
fn test_extract_skips_flags_and_paths() {
    let pkgs = extract_packages(&args(&["install", "-D", "./here", "/abs", "lodash", "--save"]));
    assert_eq!(pkgs, vec!["lodash".to_string()]);
}

#[test]
fn test_install_command_classification() {
    assert!(is_install_command("npm", "install"));
    assert!(is_install_command("npm", "i"));
    assert!(is_install_command("pnpm", "add"));
    assert!(is_install_command("bun", "add"));
    assert!(is_install_command("yarn", "add"));
    assert!(is_install_command("yarn", ""));
    assert!(!is_install_command("npm", ""));
    assert!(!is_install_command("npm", "run"));
    assert!(!is_install_command("yarn", "why"));
    assert!(!is_install_command("pip", "install"));
}

#[test]
fn test_lockfile_names() {
    assert_eq!(lockfile_name("npm"), Some("package-lock.json"));
    assert_eq!(lockfile_name("pnpm"), Some("pnpm-lock.yaml"));
    assert_eq!(lockfile_name("yarn"), Some("yarn.lock"));
    assert_eq!(lockfile_name("bun"), None);
}

#[test]
fn test_lockfile_gate_always_permits() {
    assert!(lockfile_gate("npm", true));
    assert!(lockfile_gate("npm", false));
    assert!(lockfile_gate("other", true));
}

#[test]
fn test_monitoring_injection_conditions() {
    let mut cfg = ConfigStore::new();
    cfg.set_config_value("plan", "pro");
    mark_enabled(&mut cfg);
    assert!(should_use_runtime_monitoring(&cfg, false, true));
    assert!(!should_use_runtime_monitoring(&cfg, true, true), "the override wins");
    assert!(!should_use_runtime_monitoring(&cfg, false, false), "no hook file, no injection");

    let mut free = ConfigStore::new();
    free.set_config_value("plan", "free");
    mark_enabled(&mut free);
    assert!(!should_use_runtime_monitoring(&free, false, true), "monitoring is a Pro feature");

    let mut off = ConfigStore::new();
    off.set_config_value("plan", "pro");
    assert!(!should_use_runtime_monitoring(&off, false, true), "the flag must be set");
}

#[test]
fn test_monitoring_environment_strings() {
    let mut cfg = ConfigStore::new();
    cfg.set_config_value("api_url", "https://api.example");
    assert_eq!(threat_report_url(&cfg), "https://api.example/runtime/threat");
    assert_eq!(
        node_options_value("/home/u/.sapo/monitor.js"),
        "--require \"/home/u/.sapo/monitor.js\""
    );
}
