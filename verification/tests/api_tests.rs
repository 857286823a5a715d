//! The scoring-service boundary: URL building, the download status mapping,
//! and the fail-closed parse of answers.

use sapo::api::{
    build_url, check_pro_status, classify_analyze_reply, classify_download, classify_pro_reply,
    classify_scan_reply, download_pro_module, scan_package,
};
use sapo::config::ConfigStore;

#[test]
fn test_classify_download_statuses() {
    assert_eq!(classify_download(403, "x".to_string()), Err("Pro subscription required".to_string()));
    assert_eq!(classify_download(404, "x".to_string()), Err("Module not found".to_string()));
    assert_eq!(classify_download(500, "x".to_string()), Err("Download failed: 500".to_string()));
    assert_eq!(classify_download(199, "x".to_string()), Err("Download failed: 199".to_string()));
    assert_eq!(classify_download(200, "body".to_string()), Ok("body".to_string()));
    assert_eq!(classify_download(204, "".to_string()), Ok("".to_string()));
    assert_eq!(classify_download(300, "x".to_string()), Err("Download failed: 300".to_string()));
}

#[test]
fn test_classify_scan_reply_parses_fields() {
    let body = "{\"package\":\"lodash\",\"version\":\"4.17.21\",\"riskLevel\":\"dangerous\",\"message\":\"bad history\",\"scanned\":true,\"sandboxCached\":true,\"sandboxScore\":87,\"sandboxRiskLevel\":\"warning\",\"sandboxFlags\":[{\"flag\":\"net\",\"detail\":\"talks out\",\"score\":40}],\"previousVersion\":\"4.17.20\",\"anomalyReasons\":[\"size jump\",7,\"new maintainer\"]}";
    let r = classify_scan_reply(body).expect("a JSON body parses");
    assert_eq!(r.package.as_deref(), Some("lodash"));
    assert_eq!(r.version.as_deref(), Some("4.17.21"));
    assert_eq!(r.risk_level.as_deref(), Some("dangerous"));
    assert_eq!(r.message.as_deref(), Some("bad history"));
    assert_eq!(r.scanned, Some(true));
    assert_eq!(r.sandbox_cached, Some(true));
    assert_eq!(r.sandbox_score, Some(87));
    assert_eq!(r.sandbox_risk_level.as_deref(), Some("warning"));
    let flags = r.sandbox_flags.expect("flags parsed");
    assert_eq!(flags.len(), 1);
    assert_eq!(flags[0].flag.as_deref(), Some("net"));
    assert_eq!(flags[0].detail.as_deref(), Some("talks out"));
    assert_eq!(flags[0].score, Some(40));
    assert_eq!(r.previous_version.as_deref(), Some("4.17.20"));
    assert_eq!(
        r.anomaly_reasons,
        Some(vec!["size jump".to_string(), "new maintainer".to_string()]),
        "non-string reasons are skipped"
    );
}

#[test]
fn test_classify_scan_reply_tolerates_partial_bodies() {
    let r = classify_scan_reply("{}").expect("an empty object is a readable reply");
    assert_eq!(r.risk_level, None);
    assert!(r.sandbox_flags.is_none());
    let r = classify_scan_reply("{\"riskLevel\":7}").expect("an ill-typed field is just absent");
    assert_eq!(r.risk_level, None);
    assert!(classify_scan_reply("not json").is_err());
    assert!(classify_scan_reply("").is_err());
}

#[test]
fn test_classify_pro_reply_requires_is_pro() {
    let r = classify_pro_reply("{\"isPro\":true,\"plan\":\"enterprise\"}").expect("parses");
    assert!(r.is_pro);
    assert_eq!(r.plan.as_deref(), Some("enterprise"));
    let r = classify_pro_reply("{\"isPro\":false}").expect("parses");
    assert!(!r.is_pro);
    assert_eq!(r.plan, None);
    assert!(classify_pro_reply("{}").is_err(), "a reply without isPro is unreadable");
    assert!(classify_pro_reply("{\"isPro\":\"yes\"}").is_err(), "isPro must be boolean");
    assert!(classify_pro_reply("garbage").is_err());
}

#[test]
fn test_classify_analyze_reply() {
    let body = "{\"score\":55,\"riskLevel\":\"warning\",\"flags\":[{\"detail\":\"reads env\"}],\"cached\":false}";
    let r = classify_analyze_reply(body).expect("parses");
    assert_eq!(r.score, Some(55));
    assert_eq!(r.risk_level.as_deref(), Some("warning"));
    assert_eq!(r.cached, Some(false));
    let flags = r.flags.expect("flags parsed");
    assert_eq!(flags.len(), 1);
    assert_eq!(flags[0].detail.as_deref(), Some("reads env"));
    assert_eq!(flags[0].flag, None);
    let r = classify_analyze_reply("{}").expect("an empty object is readable");
    assert_eq!(r.score, None);
    assert!(classify_analyze_reply("[not an object").is_err());
}

#[test]
fn test_build_url_without_key() {
    let mut cfg = ConfigStore::new();
    cfg.set_config_value("api_url", "https://api.example");
    cfg.set_config_value("device_id", "linux_abc");
    let url = build_url(&mut cfg, "pro/status", "linux");
    assert_eq!(url, "https://api.example/pro/status?device=linux_abc");
}

#[test]
fn test_build_url_with_key() {
    let mut cfg = ConfigStore::new();
    cfg.set_config_value("api_url", "https://api.example");
    cfg.set_config_value("device_id", "linux_abc");
    cfg.set_config_value("api_key", "SECRET-REDACTED");
    let url = build_url(&mut cfg, "scan?package=lodash", "linux");
    assert_eq!(
        url,
        "https://api.example/scan?package=lodash&device=linux_abc&key=SECRET-REDACTED"
    );
}

#[test]
fn test_build_url_generates_device_identity() {
    let mut cfg = ConfigStore::new();
    cfg.set_config_value("api_url", "https://api.example");
    let url = build_url(&mut cfg, "pro/status", "linux");
    let stored = cfg.get_config_value("device_id").expect("device identity stored");
    assert!(stored.starts_with("linux_"));
    assert_eq!(url, format!("https://api.example/pro/status?device={}", stored));
}

#[test]
fn test_scan_package_unreachable_is_error() {
    let mut cfg = ConfigStore::new();
    cfg.set_config_value("api_url", "http://127.0.0.1:9");
    cfg.set_config_value("device_id", "linux_x");
    assert!(scan_package(&mut cfg, "lodash", "linux").is_err());
}

#[test]
fn test_pro_status_unreachable_is_error() {
    let mut cfg = ConfigStore::new();
    cfg.set_config_value("api_url", "http://127.0.0.1:9");
    cfg.set_config_value("device_id", "linux_x");
    assert!(check_pro_status(&mut cfg, "linux").is_err());
}

#[test]
fn test_download_unreachable_is_error() {
    let mut cfg = ConfigStore::new();
    cfg.set_config_value("api_url", "http://127.0.0.1:9");
    cfg.set_config_value("device_id", "linux_x");
    assert!(download_pro_module(&mut cfg, "monitor.js", "linux").is_err());
}
