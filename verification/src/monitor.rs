//! The runtime-monitor controller: the monitoring flag, the monitor-hook
//! paths, and the append-only threat log read back for reporting.
//!
//! The log holds one structured record per line.  Reading it keeps file
//! order, silently skips every line that fails structured parsing, and
//! returns exactly the last `min(n, total)` valid records.

use vstd::prelude::*;
use vstd::string::StrSliceExecFns;
use vstd::string::StringExecFns;
use crate::config::{lookup, spec_set, ConfigStore};
use crate::strutil::{opt_str_or, str_eq, views};

verus! {

/// One record of the threat log, as shown: what was detected, in which
/// package, whether it was blocked, and the optional detail fields.  The
/// type, package and blocked fields carry the documented defaults where
/// the line left them out.
pub struct ThreatRecord {
    pub threat_type: String,
    pub package_name: String,
    pub blocked: bool,
    pub path: Option<String>,
    pub url: Option<String>,
    pub command: Option<String>,
    pub variable: Option<String>,
}

/// The fields one log line carries, each absent where the line leaves it
/// out or ill-typed.
pub struct ThreatFields {
    pub threat_type: Option<String>,
    pub package_name: Option<String>,
    pub blocked: Option<bool>,
    pub path: Option<String>,
    pub url: Option<String>,
    pub command: Option<String>,
    pub variable: Option<String>,
}

/// The fields a log line parses to, if the line is valid JSON.  What
/// serde_json accepts takes pages to state; the name stands for it, and it
/// depends on the characters of the line alone.
pub uninterp spec fn threat_of_line(s: Seq<char>) -> Option<ThreatFields>;

/// Relies on serde_json::from_str, Value::get and the as_* accessors: a
/// line that parses as one JSON value yields its fields, each absent where
/// missing or ill-typed; any other line yields nothing.  The result is a
/// function of the line alone.
#[verifier::external_body]
fn parse_threat_line(line: &str) -> (r: Option<ThreatFields>)
    ensures
        r == threat_of_line(line@),
{
    let v: serde_json::Value = serde_json::from_str(line).ok()?;
    let s = |k: &str| v.get(k).and_then(serde_json::Value::as_str).map(|x| x.to_string());
    let d = |k: &str|
        v.get("details").and_then(|w| w.get(k)).and_then(serde_json::Value::as_str).map(
            |x| x.to_string(),
        );
    Some(ThreatFields {
        threat_type: s("threatType"),
        package_name: s("packageName"),
        blocked: v.get("blocked").and_then(serde_json::Value::as_bool),
        path: d("path"),
        url: d("url"),
        command: d("command"),
        variable: d("variable"),
    })
}

/// How a shown record relates to a line's raw fields: `unknown` for a
/// missing type or package, not blocked when unsaid, the details as they
/// came.
pub open spec fn threat_matches(t: ThreatRecord, f: ThreatFields) -> bool {
    t.threat_type@ == opt_str_or(f.threat_type, "unknown"@) && t.package_name@ == opt_str_or(
        f.package_name,
        "unknown"@,
    ) && t.blocked == (match f.blocked {
        Some(b) => b,
        None => false,
    }) && t.path == f.path && t.url == f.url && t.command == f.command && t.variable == f.variable
}

/// Copy an optional string; the standard derive carries no specification.
fn clone_opt_string(o: &Option<String>) -> (r: Option<String>)
    ensures
        r == *o,
{
    match o {
        Some(s) => Some(s.clone()),
        None => None,
    }
}

/// Fill the documented defaults into one line's fields.
pub fn fill_threat_defaults(f: &ThreatFields) -> (r: ThreatRecord)
    ensures
        threat_matches(r, *f),
{
    ThreatRecord {
        threat_type: match &f.threat_type {
            Some(s) => s.clone(),
            None => String::from_str("unknown"),
        },
        package_name: match &f.package_name {
            Some(s) => s.clone(),
            None => String::from_str("unknown"),
        },
        blocked: match f.blocked {
            Some(b) => b,
            None => false,
        },
        path: clone_opt_string(&f.path),
        url: clone_opt_string(&f.url),
        command: clone_opt_string(&f.command),
        variable: clone_opt_string(&f.variable),
    }
}

/// The valid records' fields among the lines, in file order.
pub open spec fn valid_records(lines: Seq<Seq<char>>) -> Seq<ThreatFields>
    decreases lines.len(),
{
    if lines.len() == 0 {
        Seq::empty()
    } else {
        let rest = valid_records(lines.subrange(1, lines.len() as int));
        match threat_of_line(lines[0]) {
            None => rest,
            Some(t) => seq![t] + rest,
        }
    }
}

/// The valid records' fields among the lines from index `from` on.
fn collect_valid_from(lines: &Vec<String>, from: usize) -> (r: Vec<ThreatFields>)
    requires
        from <= lines@.len(),
    ensures
        r@ == valid_records(views(lines@).subrange(from as int, lines@.len() as int)),
    decreases lines@.len() - from,
{
    let ghost m = views(lines@).subrange(from as int, lines@.len() as int);
    if from == lines.len() {
        let r: Vec<ThreatFields> = Vec::new();
        assert(r@ =~= valid_records(m));
        r
    } else {
        let rest = collect_valid_from(lines, from + 1);
        proof {
            assert(m.subrange(1, m.len() as int) =~= views(lines@).subrange(
                from + 1,
                lines@.len() as int,
            ));
            assert(m[0] == lines@[from as int]@);
        }
        match parse_threat_line(lines[from].as_str()) {
            None => rest,
            Some(t) => {
                let mut r = rest;
                r.insert(0, t);
                assert(r@ =~= seq![t] + valid_records(m.subrange(1, m.len() as int)));
                r
            },
        }
    }
}

/// The number of syntactically valid records among the lines.
pub fn count_valid(lines: &Vec<String>) -> (r: usize)
    ensures
        r == valid_records(views(lines@)).len(),
{
    let all = collect_valid_from(lines, 0);
    proof {
        assert(views(lines@).subrange(0, lines@.len() as int) =~= views(lines@));
    }
    all.len()
}

/// The last `min(count, total)` valid records of the log lines, in file
/// order, their absent fields filled with the documented defaults; lines
/// that fail structured parsing are skipped and do not count.
pub fn threats(lines: &Vec<String>, count: usize) -> (r: Vec<ThreatRecord>)
    ensures
        ({
            let vr = valid_records(views(lines@));
            let k = if count <= vr.len() {
                count as int
            } else {
                vr.len() as int
            };
            r@.len() == k && forall|i: int|
                0 <= i < k ==> threat_matches(#[trigger] r@[i], vr[vr.len() - k + i])
        }),
{
    let ghost vr = valid_records(views(lines@));
    proof {
        assert(views(lines@).subrange(0, lines@.len() as int) =~= views(lines@));
    }
    let mut all = collect_valid_from(lines, 0);
    let total = all.len();
    let start = if total > count {
        total - count
    } else {
        0
    };
    let tail = all.split_off(start);
    let n = tail.len();
    let mut r: Vec<ThreatRecord> = Vec::new();
    let mut i: usize = 0;
    while i < n
        invariant
            i <= n,
            n == tail@.len(),
            tail@ == vr.subrange(vr.len() - n, vr.len() as int),
            r@.len() == i,
            forall|j: int| 0 <= j < i ==> threat_matches(#[trigger] r@[j], tail@[j]),
        decreases n - i,
    {
        r.push(fill_threat_defaults(&tail[i]));
        i += 1;
    }
    proof {
        assert(tail@ =~= vr.subrange(vr.len() - n, vr.len() as int));
    }
    r
}

/// The display label of a threat type; an unrecognized type is shown as
/// itself.
pub open spec fn spec_threat_label(t: Seq<char>) -> Seq<char> {
    if t == "credential_access"@ {
        "Credential File Access"@
    } else if t == "network_exfil"@ {
        "Suspicious Network Request"@
    } else if t == "credential_exfil"@ {
        "Credential Exfiltration Attempt"@
    } else if t == "process_spawn"@ {
        "Suspicious Process Spawn"@
    } else if t == "env_access"@ {
        "Sensitive Env Var Access"@
    } else if t == "suspicious_connection"@ {
        "Suspicious Network Connection"@
    } else {
        t
    }
}

/// Render a threat type for display.
pub fn format_threat_type<'a>(threat_type: &'a str) -> (r: &'a str)
    ensures
        r@ == spec_threat_label(threat_type@),
{
    if str_eq(threat_type, "credential_access") {
        "Credential File Access"
    } else if str_eq(threat_type, "network_exfil") {
        "Suspicious Network Request"
    } else if str_eq(threat_type, "credential_exfil") {
        "Credential Exfiltration Attempt"
    } else if str_eq(threat_type, "process_spawn") {
        "Suspicious Process Spawn"
    } else if str_eq(threat_type, "env_access") {
        "Sensitive Env Var Access"
    } else if str_eq(threat_type, "suspicious_connection") {
        "Suspicious Network Connection"
    } else {
        threat_type
    }
}

/// Whether the monitoring flag is set: `true` or `1`.
pub open spec fn spec_monitoring_enabled(m: Seq<(Seq<char>, Seq<char>)>) -> bool {
    match lookup(m, "runtime_monitoring"@) {
        Some(v) => v == "true"@ || v == "1"@,
        None => false,
    }
}

/// Whether runtime monitoring is enabled in the configuration.
pub fn is_monitoring_enabled(cfg: &ConfigStore) -> (r: bool)
    ensures
        r == spec_monitoring_enabled(cfg@),
{
    match cfg.get_config_value("runtime_monitoring") {
        Some(v) => str_eq(v.as_str(), "true") || str_eq(v.as_str(), "1"),
        None => false,
    }
}

/// Disable runtime monitoring: the flag is cleared, the hook file is left
/// in place.
pub fn disable(cfg: &mut ConfigStore)
    ensures
        final(cfg)@ == spec_set(old(cfg)@, "runtime_monitoring"@, "false"@),
        !spec_monitoring_enabled(final(cfg)@),
{
    cfg.set_config_value("runtime_monitoring", "false");
    proof {
        reveal_strlit("true");
        reveal_strlit("false");
        reveal_strlit("1");
        assert("false"@.len() == 5 && "true"@.len() == 4 && "1"@.len() == 1);
    }
}

/// Record that monitoring is enabled; the caller has already fetched and
/// persisted the monitor hook.
pub fn mark_enabled(cfg: &mut ConfigStore)
    ensures
        final(cfg)@ == spec_set(old(cfg)@, "runtime_monitoring"@, "true"@),
        spec_monitoring_enabled(final(cfg)@),
{
    cfg.set_config_value("runtime_monitoring", "true");
    proof {
        reveal_strlit("true");
    }
}

/// What a toggle decided.
#[derive(Clone, Copy, Debug, PartialEq, Eq, Structural)]
pub enum ToggleAction {
    /// Monitoring was on: it is now off.
    Disabled,
    /// Monitoring was off: the caller must run the enable flow, which
    /// checks the plan and fetches the hook before setting the flag.
    NeedsEnable,
}

/// Toggle runtime monitoring: an enabled flag is cleared at once; an
/// disabled one asks the caller for the enable flow, which may still be
/// refused on a free plan.
pub fn toggle(cfg: &mut ConfigStore) -> (r: ToggleAction)
    ensures
        spec_monitoring_enabled(old(cfg)@) ==> r == ToggleAction::Disabled && final(cfg)@
            == spec_set(old(cfg)@, "runtime_monitoring"@, "false"@),
        !spec_monitoring_enabled(old(cfg)@) ==> r == ToggleAction::NeedsEnable && final(cfg)@
            == old(cfg)@,
{
    if is_monitoring_enabled(cfg) {
        disable(cfg);
        ToggleAction::Disabled
    } else {
        ToggleAction::NeedsEnable
    }
}

/// The monitor hook path under the user's home.
pub fn get_monitor_script_path(home: &str) -> (r: String)
    ensures
        r@ == home@ + "/.sapo"@ + "/monitor.js"@,
{
    let mut s = crate::config::get_config_dir(home);
    s.append("/monitor.js");
    s
}

/// The threat log path under the user's home.
pub fn get_monitor_log_path(home: &str) -> (r: String)
    ensures
        r@ == home@ + "/.sapo"@ + "/monitor.log"@,
{
    let mut s = crate::config::get_config_dir(home);
    s.append("/monitor.log");
    s
}

/// Whether the monitor hook file is present; the answer depends on the
/// disk, so nothing more is stated.
pub fn monitor_script_exists(home: &str) -> bool {
    let p = get_monitor_script_path(home);
    crate::host::path_exists(p.as_str())
}

/// What the enable flow decided.
pub enum EnableOutcome {
    /// A free plan: monitoring is a Pro feature, nothing changed.
    ProRequired,
    /// The monitor hook was downloaded; the caller persists it and then
    /// marks monitoring enabled.
    Fetched(String),
    /// The download failed with this message; nothing changed.
    Failed(String),
}

/// Begin enabling runtime monitoring: refuse outright on a free plan,
/// otherwise fetch the monitor hook from the service.  The flag itself is
/// set only by `mark_enabled`, after the caller has persisted the hook; on
/// a free plan the configuration does not change at all.
pub fn enable_begin(cfg: &mut ConfigStore, prefix: &str) -> (r: EnableOutcome)
    ensures
        (r is ProRequired) == !crate::config::plan_is_pro(
            crate::config::spec_value_or(old(cfg)@, "plan"@, "free"@),
        ),
        r is ProRequired ==> final(cfg)@ == old(cfg)@,
        forall|k2: Seq<char>|
            k2 != "device_id"@ ==> #[trigger] lookup(final(cfg)@, k2) == lookup(old(cfg)@, k2),
        !spec_monitoring_enabled(old(cfg)@) ==> !spec_monitoring_enabled(final(cfg)@),
{
    proof {
        reveal_strlit("device_id");
        reveal_strlit("runtime_monitoring");
        assert("device_id"@.len() == 9 && "runtime_monitoring"@.len() == 18);
    }
    if !cfg.is_pro() {
        return EnableOutcome::ProRequired;
    }
    let outcome = crate::api::download_pro_module(cfg, "monitor.js", prefix);
    proof {
        assert(lookup(cfg@, "runtime_monitoring"@) == lookup(old(cfg)@, "runtime_monitoring"@));
    }
    match outcome {
        Ok(script) => EnableOutcome::Fetched(script),
        Err(e) => EnableOutcome::Failed(e),
    }
}

} // verus!
