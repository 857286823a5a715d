//! The risk-decision engine: how one named package moves from unscanned to
//! proceed or blocked.
//!
//! Per package the engine first decides whether to scan at all (flag-like
//! tokens are passed through, trusted names proceed with no network call),
//! then evaluates the remote response, gates a dangerous tier on an
//! interactive confirmation, and finally picks the sandbox follow-up.

use vstd::prelude::*;
use crate::api::{SandboxFlag, ScanResponse};
use crate::config::{lookup, ConfigStore};
use crate::risk::{risk_level_from, spec_risk_of, RiskLevel};
use crate::strutil::{
    find_char, lemma_find_characterization, opt_str_or, spec_find, spec_trim, str_eq,
    starts_with_char, trim,
};
use crate::trust::spec_trusted;
use vstd::string::StrSliceExecFns;

verus! {

/// What to do with a package argument before any network call.
#[derive(Clone, Copy, Debug, PartialEq, Eq, Structural)]
pub enum PreDecision {
    /// A flag or path-like token: passed through, never scanned.
    SkipToken,
    /// The bare name is in the trust set: proceed, no scan request.
    Trusted,
    /// Scan the package.
    Scan,
}

/// Tokens the engine passes through unscanned: flags and path-like
/// arguments.
pub open spec fn spec_skippable(p: Seq<char>) -> bool {
    p.len() > 0 && (p[0] == '-' || p[0] == '.' || p[0] == '/')
}

/// The bare package name: everything before the first `@` version marker.
pub open spec fn spec_strip_version(p: Seq<char>) -> Seq<char> {
    match spec_find(p, '@') {
        None => p,
        Some(i) => p.subrange(0, i),
    }
}

/// The pre-scan decision for one package argument.
pub open spec fn spec_pre_decision(m: Seq<(Seq<char>, Seq<char>)>, p: Seq<char>) -> PreDecision {
    if spec_skippable(p) {
        PreDecision::SkipToken
    } else if spec_trusted(m).contains(spec_strip_version(p)) {
        PreDecision::Trusted
    } else {
        PreDecision::Scan
    }
}

/// Whether a pre-scan decision already proceeds without a scan request.
pub open spec fn spec_pre_proceeds(d: PreDecision) -> bool {
    d == PreDecision::SkipToken || d == PreDecision::Trusted
}

/// A name in the trust set is decided without a scan request and proceeds.
pub proof fn lemma_trusted_skips_scan(m: Seq<(Seq<char>, Seq<char>)>, p: Seq<char>)
    requires
        !spec_skippable(p),
        spec_trusted(m).contains(spec_strip_version(p)),
    ensures
        spec_pre_decision(m, p) != PreDecision::Scan,
        spec_pre_proceeds(spec_pre_decision(m, p)),
{
}

/// The bare package name before any `@` version suffix.
pub fn strip_version<'a>(package: &'a str) -> (r: &'a str)
    ensures
        r@ == spec_strip_version(package@),
{
    proof {
        lemma_find_characterization(package@, '@');
    }
    match find_char(package, '@') {
        None => package,
        Some(i) => package.substring_char(0, i),
    }
}

/// Decide whether to scan this package argument at all.
pub fn pre_decision(cfg: &crate::config::ConfigStore, package: &str) -> (r: PreDecision)
    ensures
        r == spec_pre_decision(cfg@, package@),
{
    if starts_with_char(package, '-') || starts_with_char(package, '.') || starts_with_char(
        package,
        '/',
    ) {
        PreDecision::SkipToken
    } else {
        let name = strip_version(package);
        if crate::trust::is_trusted(cfg, name) {
            PreDecision::Trusted
        } else {
            PreDecision::Scan
        }
    }
}

/// The confirmation gate for the dangerous tier: proceed only on exactly
/// `y` or `Y` once surrounding whitespace (the terminal's newline) is
/// stripped.
pub open spec fn spec_gate(input: Seq<char>) -> bool {
    spec_trim(input) == "y"@ || spec_trim(input) == "Y"@
}

/// Whether a confirmation answer lets a dangerous install proceed.
pub fn gate(input: &str) -> (r: bool)
    ensures
        r == spec_gate(input@),
{
    let t = trim(input);
    str_eq(t, "y") || str_eq(t, "Y")
}

/// Only a trimmed answer of the single character `y` or `Y` opens the
/// gate; every other input blocks.
pub proof fn lemma_gate_exact(input: Seq<char>)
    ensures
        spec_gate(input) <==> (spec_trim(input).len() == 1 && (spec_trim(input)[0] == 'y'
            || spec_trim(input)[0] == 'Y')),
{
    reveal_strlit("y");
    reveal_strlit("Y");
    let t = spec_trim(input);
    if t.len() == 1 && t[0] == 'y' {
        assert(t =~= "y"@);
    }
    if t.len() == 1 && t[0] == 'Y' {
        assert(t =~= "Y"@);
    }
}

/// The structured content of one evaluated response, every absent field
/// replaced by its documented default.
pub struct ScanOutcome {
    pub risk: RiskLevel,
    pub package_display: String,
    pub version: String,
    pub message: String,
    pub previous_version: Option<String>,
    pub anomaly_reasons: Vec<String>,
    pub pro_scanned: bool,
    pub sandbox_cached: bool,
    pub sandbox_score: i32,
    pub sandbox_risk: RiskLevel,
    pub sandbox_flags: Vec<SandboxFlag>,
}

/// Fill in the documented defaults of a raw response: risk `unknown`,
/// version `latest`, message `No details`, sandbox verdict `safe` with
/// score 0, empty lists for absent ones.
pub fn evaluate_response(package: &str, resp: ScanResponse) -> (r: ScanOutcome)
    ensures
        r.risk == spec_risk_of(opt_str_or(resp.risk_level, "unknown"@)),
        r.package_display@ == opt_str_or(resp.package, package@),
        r.version@ == opt_str_or(resp.version, "latest"@),
        r.message@ == opt_str_or(resp.message, "No details"@),
        r.previous_version == resp.previous_version,
        r.anomaly_reasons@ == match resp.anomaly_reasons {
            Some(v) => v@,
            None => Seq::<String>::empty(),
        },
        r.pro_scanned == match resp.scanned {
            Some(b) => b,
            None => false,
        },
        r.sandbox_cached == match resp.sandbox_cached {
            Some(b) => b,
            None => false,
        },
        r.sandbox_score == match resp.sandbox_score {
            Some(s) => s,
            None => 0,
        },
        r.sandbox_risk == spec_risk_of(opt_str_or(resp.sandbox_risk_level, "safe"@)),
        r.sandbox_flags@ == match resp.sandbox_flags {
            Some(v) => v@,
            None => Seq::<SandboxFlag>::empty(),
        },
{
    let risk = match &resp.risk_level {
        Some(s) => risk_level_from(s.as_str()),
        None => risk_level_from("unknown"),
    };
    let sandbox_risk = match &resp.sandbox_risk_level {
        Some(s) => risk_level_from(s.as_str()),
        None => risk_level_from("safe"),
    };
    proof {
        reveal_strlit("unknown");
        reveal_strlit("safe");
    }
    ScanOutcome {
        risk,
        package_display: match resp.package {
            Some(p) => p,
            None => String::from_str(package),
        },
        version: match resp.version {
            Some(v) => v,
            None => String::from_str("latest"),
        },
        message: match resp.message {
            Some(m) => m,
            None => String::from_str("No details"),
        },
        previous_version: resp.previous_version,
        anomaly_reasons: match resp.anomaly_reasons {
            Some(v) => v,
            None => Vec::new(),
        },
        pro_scanned: match resp.scanned {
            Some(b) => b,
            None => false,
        },
        sandbox_cached: match resp.sandbox_cached {
            Some(b) => b,
            None => false,
        },
        sandbox_score: match resp.sandbox_score {
            Some(s) => s,
            None => 0,
        },
        sandbox_risk,
        sandbox_flags: match resp.sandbox_flags {
            Some(v) => v,
            None => Vec::new(),
        },
    }
}

/// How one package argument was evaluated.
pub enum Evaluation {
    /// A flag or path-like token: no scan, proceed.
    SkippedToken,
    /// The bare name was trusted: no scan, proceed.
    Trusted(String),
    /// The scan request failed: fail open, proceed with a warning.
    NetworkError(String),
    /// The service answered; the outcome carries the filled-in response.
    Evaluated(ScanOutcome),
}

/// Only a dangerous evaluated tier awaits confirmation.
pub open spec fn spec_needs_confirmation(e: &Evaluation) -> bool {
    match e {
        Evaluation::Evaluated(o) => o.risk == RiskLevel::Dangerous,
        _ => false,
    }
}

/// Whether this evaluation must block on the interactive gate.
pub fn needs_confirmation(e: &Evaluation) -> (r: bool)
    ensures
        r == spec_needs_confirmation(e),
{
    match e {
        Evaluation::Evaluated(o) => matches!(o.risk, RiskLevel::Dangerous),
        _ => false,
    }
}

/// Whether the install proceeds, given the evaluation and the confirmation
/// answer that was read (`None` where none could be read).  Everything but a
/// dangerous tier proceeds; a dangerous tier proceeds only on a gated yes.
pub open spec fn spec_decide(e: &Evaluation, input: Option<Seq<char>>) -> bool {
    if spec_needs_confirmation(e) {
        match input {
            Some(s) => spec_gate(s),
            None => false,
        }
    } else {
        true
    }
}

/// The decision for one evaluated package: `true` to proceed.
pub fn decide_with_input(e: &Evaluation, input: Option<&str>) -> (r: bool)
    ensures
        r == spec_decide(
            e,
            match input {
                Some(s) => Some(s@),
                None => None,
            },
        ),
{
    if needs_confirmation(e) {
        match input {
            Some(s) => gate(s),
            None => false,
        }
    } else {
        true
    }
}

/// Evaluate one package argument: skip a flag-like token, let a trusted
/// name through with no scan request, and otherwise query the scoring
/// service, failing open on a transport error.  Only the device identity
/// may move in the configuration; in particular the trust set is only read.
pub fn evaluate_package(cfg: &mut ConfigStore, package: &str, prefix: &str) -> (r: Evaluation)
    ensures
        spec_pre_decision(old(cfg)@, package@) == PreDecision::SkipToken ==> r is SkippedToken
            && final(cfg)@ == old(cfg)@,
        spec_pre_decision(old(cfg)@, package@) == PreDecision::Trusted ==> r is Trusted
            && r->Trusted_0@ == spec_strip_version(package@) && final(cfg)@ == old(cfg)@,
        spec_pre_decision(old(cfg)@, package@) == PreDecision::Scan ==> r is NetworkError
            || r is Evaluated,
        forall|k2: Seq<char>|
            k2 != "device_id"@ ==> #[trigger] lookup(final(cfg)@, k2) == lookup(old(cfg)@, k2),
        spec_trusted(final(cfg)@) == spec_trusted(old(cfg)@),
{
    proof {
        reveal_strlit("device_id");
        reveal_strlit("trusted");
        assert("device_id"@.len() == 9 && "trusted"@.len() == 7);
    }
    match pre_decision(cfg, package) {
        PreDecision::SkipToken => Evaluation::SkippedToken,
        PreDecision::Trusted => {
            let name = strip_version(package);
            Evaluation::Trusted(String::from_str(name))
        },
        PreDecision::Scan => {
            let outcome = crate::api::scan_package(cfg, package, prefix);
            proof {
                assert(lookup(cfg@, "trusted"@) == lookup(old(cfg)@, "trusted"@));
            }
            match outcome {
                Err(e) => Evaluation::NetworkError(e),
                Ok(resp) => Evaluation::Evaluated(evaluate_response(package, resp)),
            }
        },
    }
}

/// The sandbox follow-up after the decision of an evaluated response.
#[derive(Clone, Copy, Debug, PartialEq, Eq, Structural)]
pub enum SandboxAction {
    /// The request was not Pro-scanned: show the upsell summary, stop.
    UpsellHint,
    /// A cached verdict is present: render it, run nothing.
    RenderCached,
    /// Pro-scanned with no cache: run the local collector.
    RunLocal,
}

/// Which sandbox step follows an evaluated response.
pub open spec fn spec_sandbox_action(o: &ScanOutcome) -> SandboxAction {
    if !o.pro_scanned {
        SandboxAction::UpsellHint
    } else if o.sandbox_cached {
        SandboxAction::RenderCached
    } else {
        SandboxAction::RunLocal
    }
}

/// Pick the sandbox follow-up for an evaluated response.
pub fn sandbox_action(o: &ScanOutcome) -> (r: SandboxAction)
    ensures
        r == spec_sandbox_action(o),
{
    if !o.pro_scanned {
        SandboxAction::UpsellHint
    } else if o.sandbox_cached {
        SandboxAction::RenderCached
    } else {
        SandboxAction::RunLocal
    }
}

} // verus!
