//! The install interceptor's decisions: which package-manager commands are
//! install-like, which arguments name packages to scan, and whether runtime
//! monitoring is injected into the re-executed real command.
//!
//! The interceptor itself re-executes the real package manager; that exec
//! and its exit-code forwarding live with the caller.  Everything decided
//! before it is here, so a non-install command provably triggers no scan.

use vstd::prelude::*;
use vstd::string::StrSliceExecFns;
use vstd::string::StringExecFns;
use crate::config::{plan_is_pro, spec_value_or, ConfigStore, DEFAULT_API_URL};
use crate::decision::spec_skippable;
use crate::monitor::spec_monitoring_enabled;
use crate::strutil::{str_eq, starts_with_char, views};

verus! {

/// Whether this command of this package manager installs packages.
/// For npm, pnpm and bun: `install`, `i` or `add`; for yarn: `add`,
/// `install` or no command at all.
pub open spec fn spec_is_install(manager: Seq<char>, cmd: Seq<char>) -> bool {
    if manager == "npm"@ || manager == "pnpm"@ || manager == "bun"@ {
        cmd == "install"@ || cmd == "i"@ || cmd == "add"@
    } else if manager == "yarn"@ {
        cmd == "add"@ || cmd == "install"@ || cmd.len() == 0
    } else {
        false
    }
}

/// Classify one command of one manager.
pub fn is_install_command(manager: &str, cmd: &str) -> (r: bool)
    ensures
        r == spec_is_install(manager@, cmd@),
{
    if str_eq(manager, "npm") || str_eq(manager, "pnpm") || str_eq(manager, "bun") {
        str_eq(cmd, "install") || str_eq(cmd, "i") || str_eq(cmd, "add")
    } else if str_eq(manager, "yarn") {
        str_eq(cmd, "add") || str_eq(cmd, "install") || cmd.unicode_len() == 0
    } else {
        false
    }
}

/// The arguments that name packages: everything that is not a flag or a
/// path-like token.
pub open spec fn spec_extract(args: Seq<Seq<char>>) -> Seq<Seq<char>>
    decreases args.len(),
{
    if args.len() == 0 {
        Seq::empty()
    } else if spec_skippable(args[0]) {
        spec_extract(args.subrange(1, args.len() as int))
    } else {
        seq![args[0]] + spec_extract(args.subrange(1, args.len() as int))
    }
}

/// The package-naming arguments from index `from` on.
fn extract_from(args: &Vec<String>, from: usize) -> (r: Vec<String>)
    requires
        from <= args@.len(),
    ensures
        views(r@) == spec_extract(views(args@).subrange(from as int, args@.len() as int)),
    decreases args@.len() - from,
{
    let ghost m = views(args@).subrange(from as int, args@.len() as int);
    if from == args.len() {
        let r: Vec<String> = Vec::new();
        assert(views(r@) =~= spec_extract(m));
        r
    } else {
        let rest = extract_from(args, from + 1);
        proof {
            assert(m.subrange(1, m.len() as int) =~= views(args@).subrange(
                from + 1,
                args@.len() as int,
            ));
            assert(m[0] == args@[from as int]@);
        }
        let a = args[from].as_str();
        if starts_with_char(a, '-') || starts_with_char(a, '.') || starts_with_char(a, '/') {
            rest
        } else {
            let mut r = rest;
            r.insert(0, args[from].clone());
            assert(views(r@) =~= seq![m[0]] + spec_extract(m.subrange(1, m.len() as int)));
            r
        }
    }
}

/// The arguments after the first: the command token is dropped.
pub open spec fn spec_tail(args: Seq<Seq<char>>) -> Seq<Seq<char>> {
    if args.len() == 0 {
        Seq::empty()
    } else {
        args.subrange(1, args.len() as int)
    }
}

/// The candidate package specs named after the install command itself.
pub fn extract_packages(args: &Vec<String>) -> (r: Vec<String>)
    ensures
        views(r@) == spec_extract(spec_tail(views(args@))),
{
    if args.len() == 0 {
        let r: Vec<String> = Vec::new();
        assert(views(r@) =~= spec_extract(spec_tail(views(args@))));
        r
    } else {
        extract_from(args, 1)
    }
}

/// The command token of an argument list: its first argument, or nothing.
pub open spec fn spec_first_arg(args: Seq<Seq<char>>) -> Seq<char> {
    if args.len() == 0 {
        Seq::empty()
    } else {
        args[0]
    }
}

/// What the interceptor does with one invocation.
#[derive(Clone, Copy, Debug, PartialEq, Eq, Structural)]
pub enum PlanKind {
    /// Run the real command untouched: disabled, or not an install.
    Passthrough,
    /// Scan the named packages, in argument order, before the real command.
    ScanPackages,
    /// No package was named: check the lockfile, then run the real command.
    ScanLockfile,
}

/// The interceptor's plan for one invocation.
pub open spec fn spec_plan_kind(
    manager: Seq<char>,
    args: Seq<Seq<char>>,
    disabled: bool,
) -> PlanKind {
    if disabled {
        PlanKind::Passthrough
    } else if !spec_is_install(manager, spec_first_arg(args)) {
        PlanKind::Passthrough
    } else if spec_extract(spec_tail(args)).len() == 0 {
        PlanKind::ScanLockfile
    } else {
        PlanKind::ScanPackages
    }
}

/// A disabled guard or a non-install command is passed through: no package
/// is scanned.  The real command's exit code is forwarded by the caller
/// that performs the exec.
pub proof fn lemma_non_install_passthrough(
    manager: Seq<char>,
    args: Seq<Seq<char>>,
    disabled: bool,
)
    requires
        disabled || !spec_is_install(manager, spec_first_arg(args)),
    ensures
        spec_plan_kind(manager, args, disabled) == PlanKind::Passthrough,
{
}

/// Plan one invocation: the kind, and the packages to scan when there are
/// any.  `disabled` mirrors the explicit disable marker in the environment.
pub fn wrap_plan(manager: &str, args: &Vec<String>, disabled: bool) -> (r: (
    PlanKind,
    Vec<String>,
))
    ensures
        r.0 == spec_plan_kind(manager@, views(args@), disabled),
        r.0 == PlanKind::ScanPackages ==> views(r.1@) == spec_extract(spec_tail(views(args@)))
            && views(r.1@).len() > 0,
{
    if disabled {
        return (PlanKind::Passthrough, Vec::new());
    }
    let is_install = if args.len() == 0 {
        proof {
            reveal_strlit("");
            assert(spec_first_arg(views(args@)) =~= Seq::<char>::empty());
            assert(""@ =~= Seq::<char>::empty());
        }
        is_install_command(manager, "")
    } else {
        is_install_command(manager, args[0].as_str())
    };
    if !is_install {
        return (PlanKind::Passthrough, Vec::new());
    }
    let packages = extract_packages(args);
    if packages.len() == 0 {
        (PlanKind::ScanLockfile, packages)
    } else {
        (PlanKind::ScanPackages, packages)
    }
}

/// The lockfile one manager maintains, if any.
pub open spec fn spec_lockfile_name(manager: Seq<char>) -> Option<Seq<char>> {
    if manager == "npm"@ {
        Some("package-lock.json"@)
    } else if manager == "pnpm"@ {
        Some("pnpm-lock.yaml"@)
    } else if manager == "yarn"@ {
        Some("yarn.lock"@)
    } else {
        None
    }
}

/// The lockfile to check for one manager.
pub fn lockfile_name(manager: &str) -> (r: Option<&'static str>)
    ensures
        match r {
            Some(f) => spec_lockfile_name(manager@) == Some(f@),
            None => spec_lockfile_name(manager@) == None::<Seq<char>>,
        },
{
    if str_eq(manager, "npm") {
        Some("package-lock.json")
    } else if str_eq(manager, "pnpm") {
        Some("pnpm-lock.yaml")
    } else if str_eq(manager, "yarn") {
        Some("yarn.lock")
    } else {
        None
    }
}

/// The lockfile-only path is a placeholder gate that always permits:
/// batch-scanning a whole lockfile is left to the service side, and this
/// stands documented as a limitation rather than silently widened.
pub fn lockfile_gate(_manager: &str, _lockfile_present: bool) -> (r: bool)
    ensures
        r,
{
    true
}

/// Monitoring is injected only for a Pro plan with the monitoring flag set
/// and the hook file present, and an explicit override wins over all of it.
pub open spec fn spec_use_monitoring(
    m: Seq<(Seq<char>, Seq<char>)>,
    monitor_disabled: bool,
    script_exists: bool,
) -> bool {
    !monitor_disabled && plan_is_pro(spec_value_or(m, "plan"@, "free"@)) && spec_monitoring_enabled(
        m,
    ) && script_exists
}

/// Whether this install runs under the runtime monitor.
pub fn should_use_runtime_monitoring(
    cfg: &ConfigStore,
    monitor_disabled: bool,
    script_exists: bool,
) -> (r: bool)
    ensures
        r == spec_use_monitoring(cfg@, monitor_disabled, script_exists),
{
    if monitor_disabled {
        return false;
    }
    if !cfg.is_pro() {
        return false;
    }
    if !crate::monitor::is_monitoring_enabled(cfg) {
        return false;
    }
    script_exists
}

/// The endpoint the injected monitor reports threats to.
pub fn threat_report_url(cfg: &ConfigStore) -> (r: String)
    ensures
        r@ == spec_value_or(cfg@, "api_url"@, DEFAULT_API_URL@) + "/runtime/threat"@,
{
    let mut url = cfg.get_api_url();
    url.append("/runtime/threat");
    url
}

/// The NODE_OPTIONS value that preloads the monitor hook.
pub fn node_options_value(monitor_path: &str) -> (r: String)
    ensures
        r@ == "--require \""@ + monitor_path@ + "\""@,
{
    let mut s = String::from_str("--require \"");
    s.append(monitor_path);
    s.append("\"");
    s
}

} // verus!
