//! The trust set: adding, removing, and the add-then-remove round trip.

use sapo::config::ConfigStore;
use sapo::trust::{add, add_trusted, get_trusted, is_trusted, remove, remove_trusted, TrustOutcome};

#[test]
fn test_add_then_remove_restores_set() {
    let mut cfg = ConfigStore::new();
    cfg.set_config_value("trusted", "alpha,beta");
    let before = get_trusted(&cfg);
    add_trusted(&mut cfg, "gamma");
    assert!(is_trusted(&cfg, "gamma"));
    remove_trusted(&mut cfg, "gamma");
    assert_eq!(get_trusted(&cfg), before, "removing what was added restores the set");
}

#[test]
fn test_add_then_remove_on_empty_set() {
    let mut cfg = ConfigStore::new();
    add_trusted(&mut cfg, "only");
    assert_eq!(get_trusted(&cfg), vec!["only".to_string()]);
    remove_trusted(&mut cfg, "only");
    assert!(get_trusted(&cfg).is_empty());
}

#[test]
fn test_add_is_idempotent() {
    let mut cfg = ConfigStore::new();
    assert!(matches!(add(&mut cfg, "lodash"), TrustOutcome::Added));
    assert!(matches!(add(&mut cfg, "lodash"), TrustOutcome::AlreadyTrusted));
    assert_eq!(get_trusted(&cfg).len(), 1);
}

#[test]
fn test_remove_missing_reports_not_trusted() {
    let mut cfg = ConfigStore::new();
    cfg.set_config_value("trusted", "axios");
    assert!(matches!(remove(&mut cfg, "lodash"), TrustOutcome::NotTrusted));
    assert_eq!(get_trusted(&cfg), vec!["axios".to_string()]);
    assert!(matches!(remove(&mut cfg, "axios"), TrustOutcome::Removed));
    assert!(get_trusted(&cfg).is_empty());
}

#[test]
fn test_trust_preserves_order() {
    let mut cfg = ConfigStore::new();
    add_trusted(&mut cfg, "a");
    add_trusted(&mut cfg, "b");
    add_trusted(&mut cfg, "c");
    assert_eq!(get_trusted(&cfg), vec!["a".to_string(), "b".to_string(), "c".to_string()]);
    remove_trusted(&mut cfg, "b");
    assert_eq!(get_trusted(&cfg), vec!["a".to_string(), "c".to_string()]);
}

#[test]
fn test_trust_does_not_touch_other_keys() {
    let mut cfg = ConfigStore::new();
    cfg.set_config_value("plan", "pro");
    add_trusted(&mut cfg, "lodash");
    remove_trusted(&mut cfg, "lodash");
    assert_eq!(cfg.get_config_value("plan").as_deref(), Some("pro"));
}

#[test]
fn test_is_trusted_exact_name() {
    let mut cfg = ConfigStore::new();
    add_trusted(&mut cfg, "lodash");
    assert!(is_trusted(&cfg, "lodash"));
    assert!(!is_trusted(&cfg, "lodash2"));
    assert!(!is_trusted(&cfg, "loda"));
}
