//! Pre-install guard for package-manager installs.
//!
//! Before a package is fetched, the library classifies the package's risk and
//! decides whether the install may proceed: a trusted-package set that skips
//! scanning entirely, a remote scoring call with a fail-open policy, an
//! interactive confirmation gate for dangerous packages, a behavioral sandbox
//! report built from trace output and static source patterns, and an
//! append-only threat log read back for reporting.

pub mod api;
pub mod config;
pub mod decision;
pub mod host;
pub mod interceptor;
pub mod jsonenc;
pub mod monitor;
pub mod risk;
pub mod sandbox;
pub mod strutil;
pub mod trust;
