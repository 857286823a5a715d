//! The sandbox collector's evidence pipeline: trace parsing, the static
//! detectors, and the verified framing of the analysis submission.

use sapo::api::{SandboxAnalyzeRequest, SandboxBehavior, SandboxAnalyzeResponse};
use sapo::jsonenc::{encode_analyze_request, json_string};
use sapo::risk::RiskLevel;
use sapo::sandbox::{
    analyze_sources, extract_quoted_string, is_sensitive_path, is_source_file, package_spec,
    parse_trace, sandbox_manifest, sandbox_verdict, Platform, is_sandbox_available,
};

fn lines(list: &[&str]) -> Vec<String> {
    list.iter().map(|s| s.to_string()).collect()
}

#[test]
fn test_extract_quoted_string_from_trace() {
    assert_eq!(
        extract_quoted_string("openat(AT_FDCWD, \"/home/u/.ssh/id_rsa\", O_RDONLY) = 3"),
        Some("/home/u/.ssh/id_rsa".to_string())
    );
    assert_eq!(extract_quoted_string("no quotes here"), None);
    assert_eq!(extract_quoted_string("one \"unclosed"), None);
    assert_eq!(extract_quoted_string("\"\" empty"), Some("".to_string()));
}

#[test]
fn test_sensitive_path_markers() {
    assert!(is_sensitive_path("/home/u/.ssh/id_rsa"));
    assert!(is_sensitive_path("/home/u/.aws/credentials"));
    assert!(is_sensitive_path("/project/.npmrc"));
    assert!(!is_sensitive_path("/usr/lib/libc.so"));
}

#[test]
fn test_parse_trace_collects_evidence() {
    let mut b = SandboxBehavior::with_exit_code(0);
    let trace = lines(&[
        "openat(AT_FDCWD, \"/etc/hosts\", O_RDONLY) = 3",
        "openat(AT_FDCWD, \"/home/u/.ssh/id_rsa\", O_RDONLY) = 4",
        "connect(5, {sa_family=AF_INET, sin_port=htons(443), sin_addr=inet_addr(\"93.184.216.34\")}, 16) = 0",
        "execve(\"/usr/bin/node\", ...) = 0",
        "something unrelated",
    ]);
    parse_trace(&mut b, &trace);
    // execve lines carry quotes but no `open`/`connect` marker is missed:
    // strace writes `openat`, which contains `open`.
    assert_eq!(b.files_read.len(), 2);
    assert_eq!(b.files_read[0], "/etc/hosts");
    assert_eq!(b.files_read[1], "/home/u/.ssh/id_rsa");
    assert_eq!(b.sensitive_access.len(), 1);
    assert_eq!(b.sensitive_access[0].access_type, "file");
    assert_eq!(b.sensitive_access[0].path, "/home/u/.ssh/id_rsa");
    assert_eq!(b.network_connections.len(), 1);
    assert_eq!(b.network_connections[0].ip.as_deref(), Some("93.184.216.34"));
    assert_eq!(b.network_connections[0].host, None);
    assert_eq!(b.network_connections[0].port, 0);
    assert_eq!(b.exit_code, 0);
}

#[test]
fn test_static_detectors_and_dedup() {
    let mut b = SandboxBehavior::with_exit_code(1);
    let contents = lines(&[
        "var key = process.env.SECRET; axios.post(url, key);",
        "console.log(process.env.PATH); // the environment detector fires again",
        "eval(payload);",
    ]);
    analyze_sources(&mut b, &contents);
    assert_eq!(
        b.env_vars_accessed,
        vec!["process.env access".to_string()],
        "environment findings are deduplicated by description"
    );
    assert_eq!(b.network_connections.len(), 1);
    assert_eq!(b.network_connections[0].host.as_deref(), Some("dynamic"));
    assert_eq!(b.sensitive_access.len(), 1);
    assert_eq!(b.sensitive_access[0].access_type, "pattern");
    assert_eq!(b.sensitive_access[0].path, "Dynamic code execution");
    assert!(b.processes_spawned.is_empty());
}

#[test]
fn test_static_detector_process_and_paths() {
    let mut b = SandboxBehavior::with_exit_code(0);
    let contents = lines(&[
        "const cp = require(\"child_process\"); cp.spawn(cmd);",
        "fs.readFileSync(home + \"/.ssh/id_rsa\");",
    ]);
    analyze_sources(&mut b, &contents);
    assert_eq!(b.processes_spawned.len(), 1);
    assert_eq!(b.processes_spawned[0].executable, "child_process");
    assert!(b.processes_spawned[0].args.is_empty());
    assert_eq!(b.sensitive_access.len(), 1);
    assert_eq!(b.sensitive_access[0].path, "Sensitive paths");
}

#[test]
fn test_static_detectors_each_idiom() {
    for content in [
        "http.request(opts)",
        "fetch(url)",
        "const a = axios",
    ] {
        let mut b = SandboxBehavior::with_exit_code(0);
        analyze_sources(&mut b, &lines(&[content]));
        assert_eq!(b.network_connections.len(), 1, "network idiom: {}", content);
    }
    for content in ["exec(cmd)", "spawn(cmd)"] {
        let mut b = SandboxBehavior::with_exit_code(0);
        analyze_sources(&mut b, &lines(&[content]));
        assert_eq!(b.processes_spawned.len(), 1, "spawn idiom: {}", content);
    }
    let mut b = SandboxBehavior::with_exit_code(0);
    analyze_sources(&mut b, &lines(&["new Function(body)", "creds = \"/.aws/credentials\""]));
    assert_eq!(b.sensitive_access.len(), 2);
    let mut clean = SandboxBehavior::with_exit_code(0);
    analyze_sources(&mut clean, &lines(&["const x = 1; // nothing suspicious"]));
    assert!(clean.sensitive_access.is_empty());
    assert!(clean.network_connections.is_empty());
    assert!(clean.processes_spawned.is_empty());
    assert!(clean.env_vars_accessed.is_empty());
}

#[test]
fn test_package_spec_forms() {
    assert_eq!(package_spec("lodash", "latest"), "lodash");
    assert_eq!(package_spec("axios", "1.6.0"), "axios@1.6.0");
}

#[test]
fn test_source_file_extensions() {
    assert!(is_source_file("index.js"));
    assert!(is_source_file("mod.ts"));
    assert!(is_source_file("a.mjs"));
    assert!(is_source_file("b.cjs"));
    assert!(!is_source_file("readme.md"));
    assert!(!is_source_file("js"));
}

#[test]
fn test_sandbox_availability_fixed_answers() {
    assert!(is_sandbox_available(Platform::Windows));
    assert!(!is_sandbox_available(Platform::Other));
}

#[test]
fn test_sandbox_manifest_is_isolated_project() {
    let m = sandbox_manifest();
    assert_eq!(m, "{\"name\":\"sapo-sandbox-test\",\"version\":\"1.0.0\",\"private\":true}");
}

#[test]
fn test_verdict_defaults() {
    let v = sandbox_verdict(SandboxAnalyzeResponse {
        score: None,
        risk_level: None,
        flags: None,
        cached: None,
    });
    assert_eq!(v.score, 0);
    assert!(matches!(v.risk, RiskLevel::Safe));
    assert!(v.flags.is_empty());

    let w = sandbox_verdict(SandboxAnalyzeResponse {
        score: Some(87),
        risk_level: Some("dangerous".to_string()),
        flags: None,
        cached: Some(false),
    });
    assert_eq!(w.score, 87);
    assert!(matches!(w.risk, RiskLevel::Dangerous));
}

#[test]
fn test_encode_analyze_request_exact() {
    let mut b = SandboxBehavior::with_exit_code(-1);
    b.files_read.push("/etc/hosts".to_string());
    b.env_vars_accessed.push("process.env access".to_string());
    let req = SandboxAnalyzeRequest {
        package: "left-pad".to_string(),
        version: "1.0.0".to_string(),
        behavior: b,
        source: "local".to_string(),
        device_id: "linux_x".to_string(),
    };
    let expected = "{\"package\":\"left-pad\",\"version\":\"1.0.0\",\"behavior\":{\"filesRead\":[\"/etc/hosts\"],\"filesWritten\":[],\"networkConnections\":[],\"processesSpawned\":[],\"envVarsAccessed\":[\"process.env access\"],\"sensitiveAccess\":[],\"exitCode\":-1},\"source\":\"local\",\"deviceId\":\"linux_x\"}";
    assert_eq!(encode_analyze_request(&req), expected);
}

#[test]
fn test_encoded_request_is_valid_json() {
    let mut b = SandboxBehavior::with_exit_code(0);
    b.files_read.push("/tmp/a \"quoted\" \\ path\n".to_string());
    b.sensitive_access.push(sapo::api::SensitiveAccess {
        access_type: "file".to_string(),
        path: "/home/u/.ssh/id_rsa".to_string(),
    });
    b.network_connections.push(sapo::api::NetworkConnection {
        host: None,
        ip: Some("1.2.3.4".to_string()),
        port: 443,
    });
    b.processes_spawned.push(sapo::api::ProcessSpawned {
        executable: "sh".to_string(),
        args: vec!["-c".to_string(), "id".to_string()],
    });
    let req = SandboxAnalyzeRequest {
        package: "p".to_string(),
        version: "latest".to_string(),
        behavior: b,
        source: "local".to_string(),
        device_id: "d".to_string(),
    };
    let body = encode_analyze_request(&req);
    let v: serde_json::Value = serde_json::from_str(&body).expect("the framed body parses");
    assert_eq!(v["package"], "p");
    assert_eq!(v["behavior"]["filesRead"][0], "/tmp/a \"quoted\" \\ path\n");
    assert_eq!(v["behavior"]["networkConnections"][0]["ip"], "1.2.3.4");
    assert_eq!(v["behavior"]["networkConnections"][0]["host"], serde_json::Value::Null);
    assert_eq!(v["behavior"]["processesSpawned"][0]["args"][1], "id");
    assert_eq!(v["behavior"]["sensitiveAccess"][0]["type"], "file");
    assert_eq!(v["behavior"]["exitCode"], 0);
    assert_eq!(v["deviceId"], "d");
    assert_eq!(v["source"], "local");
}

#[test]
fn test_json_string_escapes() {
    assert_eq!(json_string("plain"), "\"plain\"");
    assert_eq!(json_string("a\"b"), "\"a\\\"b\"");
    assert_eq!(json_string("a\\b"), "\"a\\\\b\"");
    assert_eq!(json_string("a\nb\tc\rd"), "\"a\\nb\\tc\\rd\"");
    assert_eq!(json_string("\u{1}"), "\"\\u0001\"");
    assert_eq!(json_string("\u{1f}"), "\"\\u001f\"");
}
