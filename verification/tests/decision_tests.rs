//! The risk-decision engine: the pre-scan choice, the confirmation gate,
//! the response defaults, and the sandbox follow-up.

use sapo::api::ScanResponse;
use sapo::config::ConfigStore;
use sapo::decision::{
    decide_with_input, evaluate_package, evaluate_response, gate, needs_confirmation,
    pre_decision, sandbox_action, strip_version, Evaluation, PreDecision, SandboxAction,
};
use sapo::risk::{risk_level_from, RiskLevel};
use sapo::trust::add;

fn empty_response() -> ScanResponse {
    ScanResponse {
        package: None,
        version: None,
        risk_level: None,
        message: None,
        scanned: None,
        sandbox_cached: None,
        sandbox_score: None,
        sandbox_risk_level: None,
        sandbox_flags: None,
        previous_version: None,
        anomaly_reasons: None,
    }
}

#[test]
fn test_gate_accepts_only_yes() {
    assert!(gate("y"));
    assert!(gate("Y"));
    assert!(gate("y\n"));
    assert!(gate("  Y  "));
    assert!(!gate(""));
    assert!(!gate("yes"));
    assert!(!gate("n"));
    assert!(!gate("N\n"));
    assert!(!gate("yy"));
}

#[test]
fn test_safe_package_proceeds_without_prompt() {
    let mut resp = empty_response();
    resp.risk_level = Some("safe".to_string());
    resp.message = Some("clean history".to_string());
    let outcome = evaluate_response("lodash", resp);
    assert!(matches!(outcome.risk, RiskLevel::Safe));
    let eval = Evaluation::Evaluated(outcome);
    assert!(!needs_confirmation(&eval), "safe tier asks nothing");
    assert!(decide_with_input(&eval, None), "safe tier proceeds with no prompt");
}

#[test]
fn test_dangerous_package_blocked_on_refusal() {
    let mut resp = empty_response();
    resp.risk_level = Some("dangerous".to_string());
    let outcome = evaluate_response("evil-pkg", resp);
    let eval = Evaluation::Evaluated(outcome);
    assert!(needs_confirmation(&eval));
    assert!(!decide_with_input(&eval, Some("n")), "refusal blocks the install");
    assert!(!decide_with_input(&eval, None), "an unread answer blocks the install");
    assert!(decide_with_input(&eval, Some("y")), "an explicit yes proceeds");
}

#[test]
fn test_warning_package_proceeds_without_gate() {
    let mut resp = empty_response();
    resp.risk_level = Some("warning".to_string());
    let eval = Evaluation::Evaluated(evaluate_response("odd-pkg", resp));
    assert!(!needs_confirmation(&eval));
    assert!(decide_with_input(&eval, None));
}

#[test]
fn test_trusted_package_decided_without_network() {
    let mut cfg = ConfigStore::new();
    // Point the service somewhere unreachable: a trusted name must never
    // need it.
    cfg.set_config_value("api_url", "http://127.0.0.1:9");
    cfg.set_config_value("device_id", "linux_x");
    add(&mut cfg, "left-pad");
    assert!(matches!(pre_decision(&cfg, "left-pad"), PreDecision::Trusted));
    let eval = evaluate_package(&mut cfg, "left-pad", "linux");
    assert!(
        matches!(eval, Evaluation::Trusted(ref n) if n == "left-pad"),
        "a trusted name is decided locally"
    );
    assert!(decide_with_input(&eval, None));
}

#[test]
fn test_trusted_package_with_version_suffix() {
    let mut cfg = ConfigStore::new();
    add(&mut cfg, "left-pad");
    assert!(matches!(pre_decision(&cfg, "left-pad@1.3.0"), PreDecision::Trusted));
}

#[test]
fn test_flag_arguments_skipped() {
    let cfg = ConfigStore::new();
    assert!(matches!(pre_decision(&cfg, "--save-dev"), PreDecision::SkipToken));
    assert!(matches!(pre_decision(&cfg, "./local-pkg"), PreDecision::SkipToken));
    assert!(matches!(pre_decision(&cfg, "/abs/path"), PreDecision::SkipToken));
    assert!(matches!(pre_decision(&cfg, "lodash"), PreDecision::Scan));
}

#[test]
fn test_network_failure_fails_open() {
    let mut cfg = ConfigStore::new();
    cfg.set_config_value("api_url", "http://127.0.0.1:9");
    cfg.set_config_value("device_id", "linux_x");
    let eval = evaluate_package(&mut cfg, "lodash", "linux");
    assert!(matches!(eval, Evaluation::NetworkError(_)), "unreachable service is reported");
    assert!(decide_with_input(&eval, None), "infrastructure failure never blocks");
}

#[test]
fn test_strip_version_variants() {
    assert_eq!(strip_version("lodash"), "lodash");
    assert_eq!(strip_version("lodash@1.0.0"), "lodash");
    assert_eq!(strip_version("@scope/pkg"), "");
}

#[test]
fn test_risk_level_mapping() {
    assert!(matches!(risk_level_from("safe"), RiskLevel::Safe));
    assert!(matches!(risk_level_from("warning"), RiskLevel::Warning));
    assert!(matches!(risk_level_from("dangerous"), RiskLevel::Dangerous));
    assert!(matches!(risk_level_from("unknown"), RiskLevel::Unknown));
    assert!(matches!(risk_level_from("Critical!!"), RiskLevel::Unknown));
    assert!(matches!(risk_level_from(""), RiskLevel::Unknown));
}

#[test]
fn test_response_defaults() {
    let outcome = evaluate_response("mystery", empty_response());
    assert!(matches!(outcome.risk, RiskLevel::Unknown));
    assert_eq!(outcome.package_display, "mystery");
    assert_eq!(outcome.version, "latest");
    assert_eq!(outcome.message, "No details");
    assert!(!outcome.pro_scanned);
    assert!(!outcome.sandbox_cached);
    assert_eq!(outcome.sandbox_score, 0);
    assert!(matches!(outcome.sandbox_risk, RiskLevel::Safe));
    assert!(outcome.sandbox_flags.is_empty());
    assert!(outcome.anomaly_reasons.is_empty());
}

#[test]
fn test_sandbox_follow_up() {
    let mut resp = empty_response();
    resp.scanned = Some(false);
    let o1 = evaluate_response("p", resp);
    assert!(matches!(sandbox_action(&o1), SandboxAction::UpsellHint));

    let mut resp = empty_response();
    resp.scanned = Some(true);
    resp.sandbox_cached = Some(true);
    let o2 = evaluate_response("p", resp);
    assert!(matches!(sandbox_action(&o2), SandboxAction::RenderCached));

    let mut resp = empty_response();
    resp.scanned = Some(true);
    let o3 = evaluate_response("p", resp);
    assert!(matches!(sandbox_action(&o3), SandboxAction::RunLocal));
}
