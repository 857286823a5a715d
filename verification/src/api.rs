//! The remote scoring service boundary: the response and request shapes the
//! service speaks, the trusted HTTP and reply-parsing declarations, and the
//! verified drivers and classifiers built on them.

use vstd::prelude::*;
use vstd::string::StrSliceExecFns;
use vstd::string::StringExecFns;
use crate::config::{lookup, spec_value_or, ConfigStore, DEFAULT_API_URL};
use crate::strutil::{spec_dec, spec_find, u32_dec_string};
use serde_json::Value;

verus! {

/// What a scan query returns.  Every field the service may omit is optional;
/// the caller supplies the defaults.
pub struct ScanResponse {
    pub package: Option<String>,
    pub version: Option<String>,
    pub risk_level: Option<String>,
    pub message: Option<String>,
    pub scanned: Option<bool>,
    pub sandbox_cached: Option<bool>,
    pub sandbox_score: Option<i32>,
    pub sandbox_risk_level: Option<String>,
    pub sandbox_flags: Option<Vec<SandboxFlag>>,
    pub previous_version: Option<String>,
    pub anomaly_reasons: Option<Vec<String>>,
}

/// One finding a sandbox verdict carries.
pub struct SandboxFlag {
    pub flag: Option<String>,
    pub detail: Option<String>,
    pub score: Option<i32>,
}

/// What the Pro status query returns.
pub struct ProStatusResponse {
    pub is_pro: bool,
    pub plan: Option<String>,
}

/// The body submitted for a sandbox analysis.
pub struct SandboxAnalyzeRequest {
    pub package: String,
    pub version: String,
    pub behavior: SandboxBehavior,
    pub source: String,
    pub device_id: String,
}

/// The evidence one sandbox run gathered.  Fields left unobserved are empty
/// collections, never absent.
pub struct SandboxBehavior {
    pub files_read: Vec<String>,
    pub files_written: Vec<String>,
    pub network_connections: Vec<NetworkConnection>,
    pub processes_spawned: Vec<ProcessSpawned>,
    pub env_vars_accessed: Vec<String>,
    pub sensitive_access: Vec<SensitiveAccess>,
    pub exit_code: i32,
}

/// One observed network connection.
pub struct NetworkConnection {
    pub host: Option<String>,
    pub ip: Option<String>,
    pub port: i32,
}

/// One observed process spawn.
pub struct ProcessSpawned {
    pub executable: String,
    pub args: Vec<String>,
}

/// One access to sensitive data: what kind, and where.
pub struct SensitiveAccess {
    pub access_type: String,
    pub path: String,
}

/// What a sandbox analysis returns.
pub struct SandboxAnalyzeResponse {
    pub score: Option<i32>,
    pub risk_level: Option<String>,
    pub flags: Option<Vec<SandboxFlag>>,
    pub cached: Option<bool>,
}

impl SandboxBehavior {
    /// A report with nothing observed yet and the given exit code.
    pub fn with_exit_code(exit_code: i32) -> (r: SandboxBehavior)
        ensures
            r.files_read@ == Seq::<String>::empty(),
            r.files_written@ == Seq::<String>::empty(),
            r.network_connections@ == Seq::<NetworkConnection>::empty(),
            r.processes_spawned@ == Seq::<ProcessSpawned>::empty(),
            r.env_vars_accessed@ == Seq::<String>::empty(),
            r.sensitive_access@ == Seq::<SensitiveAccess>::empty(),
            r.exit_code == exit_code,
    {
        SandboxBehavior {
            files_read: Vec::new(),
            files_written: Vec::new(),
            network_connections: Vec::new(),
            processes_spawned: Vec::new(),
            env_vars_accessed: Vec::new(),
            sensitive_access: Vec::new(),
            exit_code,
        }
    }
}

/// Relies on reqwest's blocking client: one GET under a 15-second timeout,
/// answered with the status code and the body text, or the transport
/// error's message.  The outcome depends on the network, so nothing is
/// promised of it.
#[verifier::external_body]
fn http_get_text(url: &str) -> (r: Result<(u16, String), String>) {
    let timeout = std::time::Duration::from_secs(15);
    let client = reqwest::blocking::Client::builder().timeout(timeout).build().map_err(
        |e| e.to_string(),
    )?;
    let resp = client.get(url).send().map_err(|e| e.to_string())?;
    let status = resp.status().as_u16();
    let text = resp.text().map_err(|e| e.to_string())?;
    Ok((status, text))
}

/// Relies on reqwest's blocking client: one POST of the given body as JSON
/// under a 15-second timeout, answered like the GET.  The outcome depends
/// on the network, so nothing is promised of it.
#[verifier::external_body]
fn http_post_json(url: &str, body: &str) -> (r: Result<(u16, String), String>) {
    let timeout = std::time::Duration::from_secs(15);
    let client = reqwest::blocking::Client::builder().timeout(timeout).build().map_err(
        |e| e.to_string(),
    )?;
    let req = client.post(url).header("Content-Type", "application/json").body(body.to_string());
    let resp = req.send().map_err(|e| e.to_string())?;
    let status = resp.status().as_u16();
    let text = resp.text().map_err(|e| e.to_string())?;
    Ok((status, text))
}

/// The scalar fields a scan reply's body carries, absent where missing or
/// ill-typed; the two array fields are left to their own parsers.  What
/// serde_json accepts takes pages to state; the name stands for it, and it
/// depends on the characters of the body alone.  `None` exactly where the
/// body is not one JSON value.
pub uninterp spec fn scan_core_of(body: Seq<char>) -> Option<ScanResponse>;

/// The `sandboxFlags` array a scan reply's body carries, if the body is
/// JSON with such an array; a function of the body alone.
pub uninterp spec fn scan_flags_of(body: Seq<char>) -> Option<Vec<SandboxFlag>>;

/// The `anomalyReasons` strings a scan reply's body carries, if the body
/// is JSON with such an array; a function of the body alone.
pub uninterp spec fn scan_reasons_of(body: Seq<char>) -> Option<Vec<String>>;

/// The Pro-status reply a body carries: present only when the body is JSON
/// with a boolean `isPro`, as the protocol requires; a function of the
/// body alone.
pub uninterp spec fn pro_reply_of(body: Seq<char>) -> Option<ProStatusResponse>;

/// The scalar fields an analysis reply's body carries, each absent where
/// missing or ill-typed; the flags array is left to its own parser.
/// `None` exactly where the body is not one JSON value; a function of the
/// body alone.
pub uninterp spec fn analyze_core_of(body: Seq<char>) -> Option<SandboxAnalyzeResponse>;

/// The `flags` array an analysis reply's body carries, if the body is JSON
/// with such an array; a function of the body alone.
pub uninterp spec fn analyze_flags_of(body: Seq<char>) -> Option<Vec<SandboxFlag>>;

/// Relies on serde_json::from_str, Value::get and the as_* accessors: the
/// scalar fields of a scan reply, each absent where missing or ill-typed.
#[verifier::external_body]
fn parse_scan_core(body: &str) -> (r: Option<ScanResponse>)
    ensures
        r == scan_core_of(body@),
{
    let v: Value = serde_json::from_str(body).ok()?;
    let s = |k: &str| v.get(k).and_then(Value::as_str).map(|x| x.to_string());
    let b = |k: &str| v.get(k).and_then(Value::as_bool);
    Some(ScanResponse {
        package: s("package"), version: s("version"), risk_level: s("riskLevel"),
        message: s("message"), scanned: b("scanned"), sandbox_cached: b("sandboxCached"),
        sandbox_score: v.get("sandboxScore").and_then(Value::as_i64).and_then(|x| i32::try_from(x).ok()),
        sandbox_risk_level: s("sandboxRiskLevel"), sandbox_flags: None,
        previous_version: s("previousVersion"), anomaly_reasons: None,
    })
}

/// Relies on serde_json::from_str, Value::get, Value::as_array and the
/// as_* accessors: the `sandboxFlags` array, each element's fields absent
/// where missing or ill-typed.
#[verifier::external_body]
fn parse_scan_flags(body: &str) -> (r: Option<Vec<SandboxFlag>>)
    ensures
        r == scan_flags_of(body@),
{
    let v: Value = serde_json::from_str(body).ok()?;
    let arr = v.get("sandboxFlags")?.as_array()?;
    let s = |e: &Value, k: &str| e.get(k).and_then(Value::as_str).map(|x| x.to_string());
    Some(arr.iter().map(|e| SandboxFlag {
        flag: s(e, "flag"), detail: s(e, "detail"),
        score: e.get("score").and_then(Value::as_i64).and_then(|x| i32::try_from(x).ok()),
    }).collect())
}

/// Relies on serde_json::from_str, Value::get, Value::as_array and
/// Value::as_str: the `anomalyReasons` strings, anything else skipped.
#[verifier::external_body]
fn parse_scan_reasons(body: &str) -> (r: Option<Vec<String>>)
    ensures
        r == scan_reasons_of(body@),
{
    let v: Value = serde_json::from_str(body).ok()?;
    let arr = v.get("anomalyReasons")?.as_array()?;
    Some(arr.iter().filter_map(|e| e.as_str().map(|x| x.to_string())).collect())
}

/// Relies on serde_json::from_str, Value::get, Value::as_bool and
/// Value::as_str: the Pro-status reply, refused without a boolean `isPro`.
#[verifier::external_body]
fn parse_pro_reply(body: &str) -> (r: Option<ProStatusResponse>)
    ensures
        r == pro_reply_of(body@),
{
    let v: Value = serde_json::from_str(body).ok()?;
    let is_pro = v.get("isPro")?.as_bool()?;
    let plan = v.get("plan").and_then(Value::as_str).map(|x| x.to_string());
    Some(ProStatusResponse { is_pro, plan })
}

/// Relies on serde_json::from_str, Value::get and the as_* accessors: the
/// scalar fields of an analysis reply, each absent where missing or
/// ill-typed.
#[verifier::external_body]
fn parse_analyze_core(body: &str) -> (r: Option<SandboxAnalyzeResponse>)
    ensures
        r == analyze_core_of(body@),
{
    let v: Value = serde_json::from_str(body).ok()?;
    Some(SandboxAnalyzeResponse {
        score: v.get("score").and_then(Value::as_i64).and_then(|x| i32::try_from(x).ok()),
        risk_level: v.get("riskLevel").and_then(Value::as_str).map(|x| x.to_string()),
        flags: None,
        cached: v.get("cached").and_then(Value::as_bool),
    })
}

/// Relies on serde_json::from_str, Value::get, Value::as_array and the
/// as_* accessors: the `flags` array of an analysis reply, each element's
/// fields absent where missing or ill-typed.
#[verifier::external_body]
fn parse_analyze_flags(body: &str) -> (r: Option<Vec<SandboxFlag>>)
    ensures
        r == analyze_flags_of(body@),
{
    let v: Value = serde_json::from_str(body).ok()?;
    let arr = v.get("flags")?.as_array()?;
    let s = |e: &Value, k: &str| e.get(k).and_then(Value::as_str).map(|x| x.to_string());
    Some(arr.iter().map(|e| SandboxFlag {
        flag: s(e, "flag"), detail: s(e, "detail"),
        score: e.get("score").and_then(Value::as_i64).and_then(|x| i32::try_from(x).ok()),
    }).collect())
}

/// The reply a scan body carries: the scalar fields with the two arrays
/// filled in, or nothing where the body is not JSON.
pub open spec fn spec_scan_reply(body: Seq<char>) -> Option<ScanResponse> {
    match scan_core_of(body) {
        None => None,
        Some(c) => Some(
            ScanResponse {
                package: c.package,
                version: c.version,
                risk_level: c.risk_level,
                message: c.message,
                scanned: c.scanned,
                sandbox_cached: c.sandbox_cached,
                sandbox_score: c.sandbox_score,
                sandbox_risk_level: c.sandbox_risk_level,
                sandbox_flags: scan_flags_of(body),
                previous_version: c.previous_version,
                anomaly_reasons: scan_reasons_of(body),
            },
        ),
    }
}

/// What a scan reply body yields: the parsed response, or the library's
/// unreadable-reply error.
pub open spec fn spec_classify_scan(body: Seq<char>) -> Result<ScanResponse, Seq<char>> {
    match spec_scan_reply(body) {
        Some(v) => Ok(v),
        None => Err("unreadable response from scoring service"@),
    }
}

/// Classify a scan reply body.
pub fn classify_scan_reply(body: &str) -> (r: Result<ScanResponse, String>)
    ensures
        match r {
            Ok(v) => spec_classify_scan(body@) == Ok::<ScanResponse, Seq<char>>(v),
            Err(e) => spec_classify_scan(body@) == Err::<ScanResponse, Seq<char>>(e@),
        },
{
    match parse_scan_core(body) {
        None => Err(String::from_str("unreadable response from scoring service")),
        Some(core) => {
            let flags = parse_scan_flags(body);
            let reasons = parse_scan_reasons(body);
            Ok(
                ScanResponse {
                    package: core.package,
                    version: core.version,
                    risk_level: core.risk_level,
                    message: core.message,
                    scanned: core.scanned,
                    sandbox_cached: core.sandbox_cached,
                    sandbox_score: core.sandbox_score,
                    sandbox_risk_level: core.sandbox_risk_level,
                    sandbox_flags: flags,
                    previous_version: core.previous_version,
                    anomaly_reasons: reasons,
                },
            )
        },
    }
}

/// What a Pro-status reply body yields: the parsed status, or the
/// library's unreadable-reply error; a reply without the boolean `isPro`
/// the protocol requires is unreadable.
pub open spec fn spec_classify_pro(body: Seq<char>) -> Result<ProStatusResponse, Seq<char>> {
    match pro_reply_of(body) {
        Some(v) => Ok(v),
        None => Err("unreadable response from scoring service"@),
    }
}

/// Classify a Pro-status reply body.
pub fn classify_pro_reply(body: &str) -> (r: Result<ProStatusResponse, String>)
    ensures
        match r {
            Ok(v) => spec_classify_pro(body@) == Ok::<ProStatusResponse, Seq<char>>(v),
            Err(e) => spec_classify_pro(body@) == Err::<ProStatusResponse, Seq<char>>(e@),
        },
{
    match parse_pro_reply(body) {
        Some(v) => Ok(v),
        None => Err(String::from_str("unreadable response from scoring service")),
    }
}

/// The reply an analysis body carries: the scalar fields with the flags
/// filled in, or nothing where the body is not JSON.
pub open spec fn spec_analyze_reply(body: Seq<char>) -> Option<SandboxAnalyzeResponse> {
    match analyze_core_of(body) {
        None => None,
        Some(c) => Some(
            SandboxAnalyzeResponse {
                score: c.score,
                risk_level: c.risk_level,
                flags: analyze_flags_of(body),
                cached: c.cached,
            },
        ),
    }
}

/// What an analysis reply body yields: the parsed verdict, or the
/// library's unreadable-reply error.
pub open spec fn spec_classify_analyze(body: Seq<char>) -> Result<
    SandboxAnalyzeResponse,
    Seq<char>,
> {
    match spec_analyze_reply(body) {
        Some(v) => Ok(v),
        None => Err("unreadable response from scoring service"@),
    }
}

/// Classify an analysis reply body.
pub fn classify_analyze_reply(body: &str) -> (r: Result<SandboxAnalyzeResponse, String>)
    ensures
        match r {
            Ok(v) => spec_classify_analyze(body@) == Ok::<SandboxAnalyzeResponse, Seq<char>>(v),
            Err(e) => spec_classify_analyze(body@) == Err::<SandboxAnalyzeResponse, Seq<char>>(
                e@,
            ),
        },
{
    match parse_analyze_core(body) {
        None => Err(String::from_str("unreadable response from scoring service")),
        Some(core) => {
            let flags = parse_analyze_flags(body);
            Ok(
                SandboxAnalyzeResponse {
                    score: core.score,
                    risk_level: core.risk_level,
                    flags,
                    cached: core.cached,
                },
            )
        },
    }
}

/// The URL a device-authenticated query uses: the configured base, the
/// endpoint, the device identity, and the API key when one is stored.  An
/// endpoint that already carries a query continues it with `&`; one without
/// starts it with `?`.
pub open spec fn spec_build_url(m: Seq<(Seq<char>, Seq<char>)>, endpoint: Seq<char>) -> Seq<char> {
    let device = if spec_find(endpoint, '?') is Some {
        "&device="@
    } else {
        "?device="@
    };
    let base = spec_value_or(m, "api_url"@, DEFAULT_API_URL@) + "/"@ + endpoint + device
        + spec_value_or(m, "device_id"@, ""@);
    match lookup(m, "api_key"@) {
        Some(k) => if k.len() > 0 {
            base + "&key="@ + k
        } else {
            base
        },
        None => base,
    }
}

/// Build a device-authenticated URL, generating and storing the device
/// identity on first use; no other configuration key moves.
pub fn build_url(cfg: &mut ConfigStore, endpoint: &str, prefix: &str) -> (r: String)
    ensures
        r@ == spec_build_url(final(cfg)@, endpoint@),
        forall|k2: Seq<char>|
            k2 != "device_id"@ ==> #[trigger] lookup(final(cfg)@, k2) == lookup(old(cfg)@, k2),
{
    let ghost m0 = cfg@;
    let device = cfg.get_device_id(prefix);
    proof {
        reveal_strlit("device_id");
        reveal_strlit("api_url");
        reveal_strlit("api_key");
        match lookup(m0, "device_id"@) {
            Some(_) => {},
            None => {
                assert forall|k2: Seq<char>| k2 != "device_id"@ implies #[trigger] lookup(
                    cfg@,
                    k2,
                ) == lookup(m0, k2) by {
                    crate::config::lemma_set_then_get(m0, "device_id"@, device@, k2);
                }
            },
        }
        assert("device_id"@.len() == 9 && "api_url"@.len() == 7 && "api_key"@.len() == 7);
        assert("api_url"@[4] == 'u' && "api_key"@[4] == 'k');
    }
    let mut url = cfg.get_api_url();
    url.append("/");
    url.append(endpoint);
    match crate::strutil::find_char(endpoint, '?') {
        Some(_) => url.append("&device="),
        None => url.append("?device="),
    }
    url.append(device.as_str());
    proof {
        assert(lookup(cfg@, "device_id"@) == Some(device@));
    }
    match cfg.get_api_key() {
        Some(k) => {
            url.append("&key=");
            url.append(k.as_str());
            url
        },
        None => {
            url
        },
    }
}

/// Scan a package: query the scoring service and classify the body it
/// answered with (`classify_scan_reply` says exactly what each body
/// yields); a transport failure is the error, and nothing but the device
/// identity may move in the configuration.
pub fn scan_package(cfg: &mut ConfigStore, package: &str, prefix: &str) -> (r: Result<
    ScanResponse,
    String,
>)
    ensures
        forall|k2: Seq<char>|
            k2 != "device_id"@ ==> #[trigger] lookup(final(cfg)@, k2) == lookup(old(cfg)@, k2),
{
    let mut endpoint = String::from_str("scan?package=");
    endpoint.append(package);
    let url = build_url(cfg, endpoint.as_str(), prefix);
    match http_get_text(url.as_str()) {
        Err(e) => Err(e),
        Ok((_, body)) => classify_scan_reply(body.as_str()),
    }
}

/// Check Pro status: the service must answer with at least the `isPro`
/// flag (`classify_pro_reply` says exactly what each body yields);
/// anything less, or a transport failure, is the error.
pub fn check_pro_status(cfg: &mut ConfigStore, prefix: &str) -> (r: Result<
    ProStatusResponse,
    String,
>)
    ensures
        forall|k2: Seq<char>|
            k2 != "device_id"@ ==> #[trigger] lookup(final(cfg)@, k2) == lookup(old(cfg)@, k2),
{
    let url = build_url(cfg, "pro/status", prefix);
    match http_get_text(url.as_str()) {
        Err(e) => Err(e),
        Ok((_, body)) => classify_pro_reply(body.as_str()),
    }
}

/// Send one sandbox report for analysis.  The posted body is the library's
/// own verified rendering of the request, and the answer is classified by
/// `classify_analyze_reply`, which says exactly what each body yields.
pub fn analyze_sandbox(cfg: &ConfigStore, request: &SandboxAnalyzeRequest) -> (r: Result<
    SandboxAnalyzeResponse,
    String,
>) {
    let mut url = cfg.get_api_url();
    url.append("/sandbox/analyze");
    match cfg.get_api_key() {
        Some(k) => {
            url.append("?key=");
            url.append(k.as_str());
        },
        None => {},
    }
    let body = crate::jsonenc::encode_analyze_request(request);
    match http_post_json(url.as_str(), body.as_str()) {
        Err(e) => Err(e),
        Ok((_, text)) => classify_analyze_reply(text.as_str()),
    }
}

/// What a module download's answer means: a 403 wants a Pro plan, a 404
/// knows no such module, any other failure status is a plain download
/// failure, and a success status hands the body through.
pub open spec fn spec_classify_download(status: int, body: Seq<char>) -> Result<
    Seq<char>,
    Seq<char>,
> {
    if status == 403 {
        Err("Pro subscription required"@)
    } else if status == 404 {
        Err("Module not found"@)
    } else if !(200 <= status < 300) {
        Err("Download failed: "@ + spec_dec(status))
    } else {
        Ok(body)
    }
}

/// Classify a module download's status and body.
pub fn classify_download(status: u16, body: String) -> (r: Result<String, String>)
    ensures
        match r {
            Ok(t) => spec_classify_download(status as int, body@) == Ok::<Seq<char>, Seq<char>>(
                t@,
            ),
            Err(e) => spec_classify_download(status as int, body@) == Err::<Seq<char>, Seq<char>>(
                e@,
            ),
        },
{
    if status == 403 {
        Err(String::from_str("Pro subscription required"))
    } else if status == 404 {
        Err(String::from_str("Module not found"))
    } else if status < 200 || status >= 300 {
        let mut e = String::from_str("Download failed: ");
        let d = u32_dec_string(status as u32);
        e.append(d.as_str());
        Err(e)
    } else {
        Ok(body)
    }
}

/// Download a Pro module by name.  The status mapping is exact; whether the
/// service grants it depends on the plan and the network, and nothing but
/// the device identity may move in the configuration.
pub fn download_pro_module(cfg: &mut ConfigStore, module_name: &str, prefix: &str) -> (r: Result<
    String,
    String,
>)
    ensures
        forall|k2: Seq<char>|
            k2 != "device_id"@ ==> #[trigger] lookup(final(cfg)@, k2) == lookup(old(cfg)@, k2),
{
    let mut endpoint = String::from_str("pro/module/");
    endpoint.append(module_name);
    let url = build_url(cfg, endpoint.as_str(), prefix);
    match http_get_text(url.as_str()) {
        Err(e) => Err(e),
        Ok((status, body)) => classify_download(status, body),
    }
}

} // verus!
