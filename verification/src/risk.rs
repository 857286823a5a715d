//! The closed risk tiers a package can be assigned, with an explicit
//! `Unknown` fallback so an unrecognized remote string never fails a
//! response.

use vstd::prelude::*;
use crate::strutil::str_eq;

verus! {

/// The risk tier of a package.
#[derive(Clone, Copy, Debug, PartialEq, Eq, Structural)]
pub enum RiskLevel {
    Safe,
    Warning,
    Dangerous,
    Unknown,
}

/// The tier a remote string names; anything unrecognized is `Unknown`.
pub open spec fn spec_risk_of(s: Seq<char>) -> RiskLevel {
    if s == "safe"@ {
        RiskLevel::Safe
    } else if s == "warning"@ {
        RiskLevel::Warning
    } else if s == "dangerous"@ {
        RiskLevel::Dangerous
    } else {
        RiskLevel::Unknown
    }
}

/// Map a remote risk string to its tier.
pub fn risk_level_from(s: &str) -> (r: RiskLevel)
    ensures
        r == spec_risk_of(s@),
{
    if str_eq(s, "safe") {
        RiskLevel::Safe
    } else if str_eq(s, "warning") {
        RiskLevel::Warning
    } else if str_eq(s, "dangerous") {
        RiskLevel::Dangerous
    } else {
        RiskLevel::Unknown
    }
}

/// The canonical name of a tier.
pub open spec fn spec_risk_label(l: RiskLevel) -> Seq<char> {
    match l {
        RiskLevel::Safe => "safe"@,
        RiskLevel::Warning => "warning"@,
        RiskLevel::Dangerous => "dangerous"@,
        RiskLevel::Unknown => "unknown"@,
    }
}

/// Render a tier under its canonical name.
pub fn risk_label(l: RiskLevel) -> (r: &'static str)
    ensures
        r@ == spec_risk_label(l),
{
    match l {
        RiskLevel::Safe => "safe",
        RiskLevel::Warning => "warning",
        RiskLevel::Dangerous => "dangerous",
        RiskLevel::Unknown => "unknown",
    }
}

} // verus!
