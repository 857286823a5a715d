//! The behavioral sandbox collector's evidence pipeline: parsing the
//! tracer's output line by line, and the static pattern pass over the
//! installed sources.
//!
//! The caller creates the disposable working directory, runs the traced
//! install, reads the trace and the source files, and removes the directory
//! on every exit path; everything that interprets the gathered text is here
//! and verified.

use vstd::prelude::*;
use vstd::string::StrSliceExecFns;
use vstd::string::StringExecFns;
use crate::api::{NetworkConnection, ProcessSpawned, SandboxBehavior, SensitiveAccess};
use crate::strutil::{
    contains_sub, find_char, lemma_find_characterization, spec_contains, spec_find, str_eq, views,
};
use crate::host::executable_on_path;

verus! {

/// The platform the collector was started on, chosen once by the caller.
#[derive(Clone, Copy, Debug, PartialEq, Eq, Structural)]
pub enum Platform {
    Linux,
    MacOs,
    Windows,
    Other,
}

/// Whether a tracing facility or the static fallback can run here: a
/// syscall tracer on Linux and macOS, the static pass alone on Windows,
/// nothing elsewhere.  Whether a tracer is installed depends on the
/// machine, so only the fixed answers are stated.
pub fn is_sandbox_available(platform: Platform) -> (r: bool)
    ensures
        platform == Platform::Windows ==> r,
        platform == Platform::Other ==> !r,
{
    match platform {
        Platform::Linux => executable_on_path("strace"),
        Platform::MacOs => executable_on_path("dtruss") || executable_on_path("fs_usage"),
        Platform::Windows => true,
        Platform::Other => false,
    }
}

/// The exact spec the isolated install is asked for: `name` alone for the
/// latest version, else `name@version`.
pub fn package_spec(package: &str, version: &str) -> (r: String)
    ensures
        version@ == "latest"@ ==> r@ == package@,
        version@ != "latest"@ ==> r@ == package@ + "@"@ + version@,
{
    if str_eq(version, "latest") {
        String::from_str(package)
    } else {
        let mut s = String::from_str(package);
        s.append("@");
        s.append(version);
        s
    }
}

/// The minimal manifest written into the disposable working directory so
/// the package manager treats it as an isolated project.
pub fn sandbox_manifest() -> (r: &'static str)
    ensures
        r@ == "{\"name\":\"sapo-sandbox-test\",\"version\":\"1.0.0\",\"private\":true}"@,
{
    "{\"name\":\"sapo-sandbox-test\",\"version\":\"1.0.0\",\"private\":true}"
}

/// The text between the first pair of double quotes, if the line has one.
pub open spec fn spec_extract_quoted(s: Seq<char>) -> Option<Seq<char>> {
    match spec_find(s, '"') {
        None => None,
        Some(i) => match spec_find(s.subrange(i + 1, s.len() as int), '"') {
            None => None,
            Some(j) => Some(s.subrange(i + 1, i + 1 + j)),
        },
    }
}

/// Extract the first quoted string from a trace line.
pub fn extract_quoted_string(line: &str) -> (r: Option<String>)
    ensures
        match r {
            Some(p) => spec_extract_quoted(line@) == Some(p@),
            None => spec_extract_quoted(line@) == None::<Seq<char>>,
        },
{
    proof {
        lemma_find_characterization(line@, '"');
    }
    match find_char(line, '"') {
        None => None,
        Some(i) => {
            let len = line.unicode_len();
            let rest = line.substring_char(i + 1, len);
            proof {
                lemma_find_characterization(rest@, '"');
            }
            match find_char(rest, '"') {
                None => None,
                Some(j) => {
                    proof {
                        assert(rest@.subrange(0, j as int) =~= line@.subrange(
                            i + 1,
                            i + 1 + j,
                        ));
                    }
                    Some(String::from_str(rest.substring_char(0, j)))
                },
            }
        },
    }
}

/// Paths that touch a credential store.
pub open spec fn spec_sensitive_path(p: Seq<char>) -> bool {
    spec_contains(p, ".ssh"@) || spec_contains(p, ".aws"@) || spec_contains(p, ".npmrc"@)
}

/// Whether a path contains a credential-store marker.
pub fn is_sensitive_path(p: &str) -> (r: bool)
    ensures
        r == spec_sensitive_path(p@),
{
    contains_sub(p, ".ssh") || contains_sub(p, ".aws") || contains_sub(p, ".npmrc")
}

/// The first dotted-quad address in the line, as the tracer prints one.
/// What the expression `\d+\.\d+\.\d+\.\d+` matches first takes pages to
/// state; the name stands for it, and it depends on the line alone.
pub uninterp spec fn ipv4_match(s: Seq<char>) -> Option<Seq<char>>;

/// Relies on regex_lite::Regex::find with the dotted-quad pattern: the
/// leftmost match, a function of the line alone.
#[verifier::external_body]
fn find_ipv4(line: &str) -> (r: Option<String>)
    ensures
        match r {
            Some(ip) => ipv4_match(line@) == Some(ip@),
            None => ipv4_match(line@) == None::<Seq<char>>,
        },
{
    regex_lite::Regex::new(r"\d+\.\d+\.\d+\.\d+").ok().and_then(
        |re| re.find(line).map(|m| m.as_str().to_string()),
    )
}

/// The views of observed sensitive accesses: kind and path.
pub open spec fn sa_views(s: Seq<SensitiveAccess>) -> Seq<(Seq<char>, Seq<char>)> {
    s.map_values(|x: SensitiveAccess| (x.access_type@, x.path@))
}

/// The views of observed connections: host, address, port.
pub open spec fn nc_views(s: Seq<NetworkConnection>) -> Seq<
    (Option<Seq<char>>, Option<Seq<char>>, int),
> {
    s.map_values(
        |x: NetworkConnection|
            (
                match x.host {
                    Some(h) => Some(h@),
                    None => None,
                },
                match x.ip {
                    Some(ip) => Some(ip@),
                    None => None,
                },
                x.port as int,
            ),
    )
}

/// The views of observed process spawns: executable and arguments.
pub open spec fn ps_views(s: Seq<ProcessSpawned>) -> Seq<(Seq<char>, Seq<Seq<char>>)> {
    s.map_values(|x: ProcessSpawned| (x.executable@, views(x.args@)))
}

/// The file path a trace line reports opened, if any: a line mentioning
/// `open` with a quoted path argument.
pub open spec fn spec_line_file(s: Seq<char>) -> Option<Seq<char>> {
    if spec_contains(s, "open"@) {
        spec_extract_quoted(s)
    } else {
        None
    }
}

/// The address a trace line reports connected to, if any: a line
/// mentioning `connect` with a dotted-quad in it.
pub open spec fn spec_line_ip(s: Seq<char>) -> Option<Seq<char>> {
    if spec_contains(s, "connect"@) {
        ipv4_match(s)
    } else {
        None
    }
}

/// A sequence of nothing or one thing.
pub open spec fn opt_seq<A>(o: Option<A>) -> Seq<A> {
    match o {
        None => Seq::empty(),
        Some(x) => seq![x],
    }
}

/// The file reads a whole trace contributes, in line order.
pub open spec fn spec_trace_files(lines: Seq<Seq<char>>) -> Seq<Seq<char>>
    decreases lines.len(),
{
    if lines.len() == 0 {
        Seq::empty()
    } else {
        opt_seq(spec_line_file(lines[0])) + spec_trace_files(
            lines.subrange(1, lines.len() as int),
        )
    }
}

/// The sensitive accesses a whole trace contributes: each opened path with
/// a credential-store marker, of kind `file`.
pub open spec fn spec_trace_sensitive(lines: Seq<Seq<char>>) -> Seq<(Seq<char>, Seq<char>)>
    decreases lines.len(),
{
    if lines.len() == 0 {
        Seq::empty()
    } else {
        let here = match spec_line_file(lines[0]) {
            Some(p) => if spec_sensitive_path(p) {
                seq![("file"@, p)]
            } else {
                Seq::empty()
            },
            None => Seq::empty(),
        };
        here + spec_trace_sensitive(lines.subrange(1, lines.len() as int))
    }
}

/// The connections a whole trace contributes: address only, port unset.
pub open spec fn spec_trace_connections(lines: Seq<Seq<char>>) -> Seq<
    (Option<Seq<char>>, Option<Seq<char>>, int),
>
    decreases lines.len(),
{
    if lines.len() == 0 {
        Seq::empty()
    } else {
        let here = match spec_line_ip(lines[0]) {
            Some(ip) => seq![(None::<Seq<char>>, Some(ip), 0int)],
            None => Seq::empty(),
        };
        here + spec_trace_connections(lines.subrange(1, lines.len() as int))
    }
}

/// Apply one trace line to the report: an `open` line contributes its
/// quoted path to the file reads (and to the sensitive accesses when the
/// path touches a credential store), a `connect` line contributes its
/// dotted-quad address.
fn parse_trace_line(b: &mut SandboxBehavior, line: &str)
    ensures
        views(final(b).files_read@) == views(old(b).files_read@) + opt_seq(
            spec_line_file(line@),
        ),
        sa_views(final(b).sensitive_access@) == sa_views(old(b).sensitive_access@) + (match spec_line_file(
            line@,
        ) {
            Some(p) => if spec_sensitive_path(p) {
                seq![("file"@, p)]
            } else {
                Seq::empty()
            },
            None => Seq::empty(),
        }),
        nc_views(final(b).network_connections@) == nc_views(old(b).network_connections@) + (
        match spec_line_ip(line@) {
            Some(ip) => seq![(None::<Seq<char>>, Some(ip), 0int)],
            None => Seq::empty(),
        }),
        final(b).files_written == old(b).files_written,
        final(b).processes_spawned == old(b).processes_spawned,
        final(b).env_vars_accessed == old(b).env_vars_accessed,
        final(b).exit_code == old(b).exit_code,
{
    if contains_sub(line, "open") {
        match extract_quoted_string(line) {
            Some(path) => {
                let sensitive = is_sensitive_path(path.as_str());
                if sensitive {
                    let ghost sa0 = sa_views(b.sensitive_access@);
                    b.sensitive_access.push(
                        SensitiveAccess {
                            access_type: String::from_str("file"),
                            path: path.clone(),
                        },
                    );
                    assert(sa_views(b.sensitive_access@) =~= sa0 + seq![("file"@, path@)]);
                }
                let ghost f0 = views(b.files_read@);
                b.files_read.push(path);
                assert(views(b.files_read@) =~= f0 + opt_seq(spec_line_file(line@)));
            },
            None => {},
        }
    }
    if contains_sub(line, "connect") {
        match find_ipv4(line) {
            Some(ip) => {
                let ghost n0 = nc_views(b.network_connections@);
                b.network_connections.push(
                    NetworkConnection { host: None, ip: Some(ip), port: 0 },
                );
                assert(nc_views(b.network_connections@) =~= n0 + (match spec_line_ip(line@) {
                    Some(q) => seq![(None::<Seq<char>>, Some(q), 0int)],
                    None => Seq::empty(),
                }));
            },
            None => {},
        }
    }
    proof {
        assert(views(final(b).files_read@) =~= views(old(b).files_read@) + opt_seq(
            spec_line_file(line@),
        ));
        assert(sa_views(final(b).sensitive_access@) =~= sa_views(old(b).sensitive_access@) + (
        match spec_line_file(line@) {
            Some(p) => if spec_sensitive_path(p) {
                seq![("file"@, p)]
            } else {
                Seq::empty()
            },
            None => Seq::empty(),
        }));
        assert(nc_views(final(b).network_connections@) =~= nc_views(
            old(b).network_connections@,
        ) + (match spec_line_ip(line@) {
            Some(ip) => seq![(None::<Seq<char>>, Some(ip), 0int)],
            None => Seq::empty(),
        }));
    }
}

/// Apply the trace lines from index `from` on, in order.
fn parse_trace_from(b: &mut SandboxBehavior, lines: &Vec<String>, from: usize)
    requires
        from <= lines@.len(),
    ensures
        views(final(b).files_read@) == views(old(b).files_read@) + spec_trace_files(
            views(lines@).subrange(from as int, lines@.len() as int),
        ),
        sa_views(final(b).sensitive_access@) == sa_views(old(b).sensitive_access@)
            + spec_trace_sensitive(views(lines@).subrange(from as int, lines@.len() as int)),
        nc_views(final(b).network_connections@) == nc_views(old(b).network_connections@)
            + spec_trace_connections(views(lines@).subrange(from as int, lines@.len() as int)),
        final(b).files_written == old(b).files_written,
        final(b).processes_spawned == old(b).processes_spawned,
        final(b).env_vars_accessed == old(b).env_vars_accessed,
        final(b).exit_code == old(b).exit_code,
    decreases lines@.len() - from,
{
    let ghost rest = views(lines@).subrange(from as int, lines@.len() as int);
    if from == lines.len() {
        proof {
            assert(views(b.files_read@) + spec_trace_files(rest) =~= views(b.files_read@));
            assert(sa_views(b.sensitive_access@) + spec_trace_sensitive(rest) =~= sa_views(
                b.sensitive_access@,
            ));
            assert(nc_views(b.network_connections@) + spec_trace_connections(rest) =~= nc_views(
                b.network_connections@,
            ));
        }
    } else {
        proof {
            assert(rest.subrange(1, rest.len() as int) =~= views(lines@).subrange(
                from + 1,
                lines@.len() as int,
            ));
            assert(rest[0] == lines@[from as int]@);
        }
        parse_trace_line(b, lines[from].as_str());
        let ghost mid_files = views(b.files_read@);
        let ghost mid_sa = sa_views(b.sensitive_access@);
        let ghost mid_nc = nc_views(b.network_connections@);
        parse_trace_from(b, lines, from + 1);
        proof {
            assert(views(b.files_read@) =~= views(old(b).files_read@) + spec_trace_files(rest));
            assert(sa_views(b.sensitive_access@) =~= sa_views(old(b).sensitive_access@)
                + spec_trace_sensitive(rest));
            assert(nc_views(b.network_connections@) =~= nc_views(old(b).network_connections@)
                + spec_trace_connections(rest));
        }
    }
}

/// Parse a whole tracer output into the report, line by line, in order.
/// A trace that fails to parse contributes nothing and fails nothing.
pub fn parse_trace(b: &mut SandboxBehavior, lines: &Vec<String>)
    ensures
        views(final(b).files_read@) == views(old(b).files_read@) + spec_trace_files(
            views(lines@),
        ),
        sa_views(final(b).sensitive_access@) == sa_views(old(b).sensitive_access@)
            + spec_trace_sensitive(views(lines@)),
        nc_views(final(b).network_connections@) == nc_views(old(b).network_connections@)
            + spec_trace_connections(views(lines@)),
        final(b).files_written == old(b).files_written,
        final(b).processes_spawned == old(b).processes_spawned,
        final(b).env_vars_accessed == old(b).env_vars_accessed,
        final(b).exit_code == old(b).exit_code,
{
    proof {
        assert(views(lines@).subrange(0, lines@.len() as int) =~= views(lines@));
    }
    parse_trace_from(b, lines, 0);
}

/// Whether this source file reads the process environment.
pub open spec fn spec_env_hit(c: Seq<char>) -> bool {
    spec_contains(c, "process.env."@)
}

/// Whether this source file holds credential-path literals.
pub open spec fn spec_path_hit(c: Seq<char>) -> bool {
    spec_contains(c, ".ssh"@) || spec_contains(c, ".aws"@) || spec_contains(c, ".npmrc"@)
}

/// Whether this source file uses an outbound-network call idiom.
pub open spec fn spec_net_hit(c: Seq<char>) -> bool {
    spec_contains(c, "http.request"@) || spec_contains(c, "fetch("@) || spec_contains(c, "axios"@)
}

/// Whether this source file uses a process-spawn idiom.
pub open spec fn spec_proc_hit(c: Seq<char>) -> bool {
    spec_contains(c, "child_process"@) || spec_contains(c, "exec("@) || spec_contains(
        c,
        "spawn("@,
    )
}

/// Whether this source file evaluates code dynamically.
pub open spec fn spec_eval_hit(c: Seq<char>) -> bool {
    spec_contains(c, "eval("@) || spec_contains(c, "new Function("@)
}

/// What one source file does to the environment-access findings:
/// deduplicated by description.
pub open spec fn spec_src_env(env0: Seq<Seq<char>>, c: Seq<char>) -> Seq<Seq<char>> {
    if spec_env_hit(c) && !env0.contains("process.env access"@) {
        env0.push("process.env access"@)
    } else {
        env0
    }
}

/// The sensitive-access findings one source file appends.
pub open spec fn spec_src_sensitive(c: Seq<char>) -> Seq<(Seq<char>, Seq<char>)> {
    (if spec_path_hit(c) {
        seq![("pattern"@, "Sensitive paths"@)]
    } else {
        Seq::empty()
    }) + (if spec_eval_hit(c) {
        seq![("pattern"@, "Dynamic code execution"@)]
    } else {
        Seq::empty()
    })
}

/// The connection findings one source file appends.
pub open spec fn spec_src_net(c: Seq<char>) -> Seq<(Option<Seq<char>>, Option<Seq<char>>, int)> {
    if spec_net_hit(c) {
        seq![(Some("dynamic"@), None::<Seq<char>>, 0int)]
    } else {
        Seq::empty()
    }
}

/// The process-spawn findings one source file appends.
pub open spec fn spec_src_proc(c: Seq<char>) -> Seq<(Seq<char>, Seq<Seq<char>>)> {
    if spec_proc_hit(c) {
        seq![("child_process"@, Seq::<Seq<char>>::empty())]
    } else {
        Seq::empty()
    }
}

/// Whether the strings hold `s`.
fn vec_contains_str(v: &Vec<String>, s: &str) -> (r: bool)
    ensures
        r == views(v@).contains(s@),
{
    let n = v.len();
    let mut i: usize = 0;
    while i < n
        invariant
            i <= n,
            n == v@.len(),
            forall|j: int| 0 <= j < i ==> views(v@)[j] != s@,
        decreases n - i,
    {
        if str_eq(v[i].as_str(), s) {
            proof {
                assert(views(v@)[i as int] == s@);
            }
            return true;
        }
        i += 1;
    }
    assert(!views(v@).contains(s@));
    false
}

/// Run the five fixed detectors over one source file's text, appending each
/// finding to its report field; environment-access findings are
/// deduplicated by description, the others appended per occurrence.
fn scan_source_content(b: &mut SandboxBehavior, content: &str)
    ensures
        views(final(b).env_vars_accessed@) == spec_src_env(
            views(old(b).env_vars_accessed@),
            content@,
        ),
        sa_views(final(b).sensitive_access@) == sa_views(old(b).sensitive_access@)
            + spec_src_sensitive(content@),
        nc_views(final(b).network_connections@) == nc_views(old(b).network_connections@)
            + spec_src_net(content@),
        ps_views(final(b).processes_spawned@) == ps_views(old(b).processes_spawned@)
            + spec_src_proc(content@),
        final(b).files_read == old(b).files_read,
        final(b).files_written == old(b).files_written,
        final(b).exit_code == old(b).exit_code,
{
    if contains_sub(content, "process.env.") {
        if !vec_contains_str(&b.env_vars_accessed, "process.env access") {
            let ghost e0 = views(b.env_vars_accessed@);
            b.env_vars_accessed.push(String::from_str("process.env access"));
            assert(views(b.env_vars_accessed@) =~= e0.push("process.env access"@));
        }
    }
    if contains_sub(content, ".ssh") || contains_sub(content, ".aws") || contains_sub(
        content,
        ".npmrc",
    ) {
        let ghost s0 = sa_views(b.sensitive_access@);
        b.sensitive_access.push(
            SensitiveAccess {
                access_type: String::from_str("pattern"),
                path: String::from_str("Sensitive paths"),
            },
        );
        assert(sa_views(b.sensitive_access@) =~= s0 + seq![("pattern"@, "Sensitive paths"@)]);
    }
    if contains_sub(content, "http.request") || contains_sub(content, "fetch(") || contains_sub(
        content,
        "axios",
    ) {
        let ghost n0 = nc_views(b.network_connections@);
        b.network_connections.push(
            NetworkConnection { host: Some(String::from_str("dynamic")), ip: None, port: 0 },
        );
        assert(nc_views(b.network_connections@) =~= n0 + seq![
            (Some("dynamic"@), None::<Seq<char>>, 0int),
        ]);
    }
    if contains_sub(content, "child_process") || contains_sub(content, "exec(") || contains_sub(
        content,
        "spawn(",
    ) {
        let ghost p0 = ps_views(b.processes_spawned@);
        let noargs: Vec<String> = Vec::new();
        proof {
            assert(views(noargs@) =~= Seq::<Seq<char>>::empty());
        }
        b.processes_spawned.push(
            ProcessSpawned { executable: String::from_str("child_process"), args: noargs },
        );
        assert(ps_views(b.processes_spawned@) =~= p0 + seq![
            ("child_process"@, Seq::<Seq<char>>::empty()),
        ]);
    }
    if contains_sub(content, "eval(") || contains_sub(content, "new Function(") {
        let ghost s0 = sa_views(b.sensitive_access@);
        b.sensitive_access.push(
            SensitiveAccess {
                access_type: String::from_str("pattern"),
                path: String::from_str("Dynamic code execution"),
            },
        );
        assert(sa_views(b.sensitive_access@) =~= s0 + seq![
            ("pattern"@, "Dynamic code execution"@),
        ]);
    }
    proof {
        assert(sa_views(final(b).sensitive_access@) =~= sa_views(old(b).sensitive_access@)
            + spec_src_sensitive(content@));
        assert(nc_views(final(b).network_connections@) =~= nc_views(old(b).network_connections@)
            + spec_src_net(content@));
        assert(ps_views(final(b).processes_spawned@) =~= ps_views(old(b).processes_spawned@)
            + spec_src_proc(content@));
        assert(views(final(b).env_vars_accessed@) =~= spec_src_env(
            views(old(b).env_vars_accessed@),
            content@,
        ));
    }
}

/// The environment findings after every file's detectors ran, in order.
pub open spec fn spec_sources_env(env0: Seq<Seq<char>>, contents: Seq<Seq<char>>) -> Seq<Seq<char>>
    decreases contents.len(),
{
    if contents.len() == 0 {
        env0
    } else {
        spec_sources_env(
            spec_src_env(env0, contents[0]),
            contents.subrange(1, contents.len() as int),
        )
    }
}

/// The sensitive-access findings of all files, in order.
pub open spec fn spec_sources_sensitive(contents: Seq<Seq<char>>) -> Seq<(Seq<char>, Seq<char>)>
    decreases contents.len(),
{
    if contents.len() == 0 {
        Seq::empty()
    } else {
        spec_src_sensitive(contents[0]) + spec_sources_sensitive(
            contents.subrange(1, contents.len() as int),
        )
    }
}

/// The connection findings of all files, in order.
pub open spec fn spec_sources_net(contents: Seq<Seq<char>>) -> Seq<
    (Option<Seq<char>>, Option<Seq<char>>, int),
>
    decreases contents.len(),
{
    if contents.len() == 0 {
        Seq::empty()
    } else {
        spec_src_net(contents[0]) + spec_sources_net(contents.subrange(1, contents.len() as int))
    }
}

/// The process-spawn findings of all files, in order.
pub open spec fn spec_sources_proc(contents: Seq<Seq<char>>) -> Seq<(Seq<char>, Seq<Seq<char>>)>
    decreases contents.len(),
{
    if contents.len() == 0 {
        Seq::empty()
    } else {
        spec_src_proc(contents[0]) + spec_sources_proc(contents.subrange(1, contents.len() as int))
    }
}

/// Run the detectors over the files from index `from` on, in order.
fn analyze_sources_from(b: &mut SandboxBehavior, contents: &Vec<String>, from: usize)
    requires
        from <= contents@.len(),
    ensures
        views(final(b).env_vars_accessed@) == spec_sources_env(
            views(old(b).env_vars_accessed@),
            views(contents@).subrange(from as int, contents@.len() as int),
        ),
        sa_views(final(b).sensitive_access@) == sa_views(old(b).sensitive_access@)
            + spec_sources_sensitive(views(contents@).subrange(from as int, contents@.len() as int)),
        nc_views(final(b).network_connections@) == nc_views(old(b).network_connections@)
            + spec_sources_net(views(contents@).subrange(from as int, contents@.len() as int)),
        ps_views(final(b).processes_spawned@) == ps_views(old(b).processes_spawned@)
            + spec_sources_proc(views(contents@).subrange(from as int, contents@.len() as int)),
        final(b).files_read == old(b).files_read,
        final(b).files_written == old(b).files_written,
        final(b).exit_code == old(b).exit_code,
    decreases contents@.len() - from,
{
    let ghost rest = views(contents@).subrange(from as int, contents@.len() as int);
    if from == contents.len() {
        proof {
            assert(sa_views(b.sensitive_access@) + spec_sources_sensitive(rest) =~= sa_views(
                b.sensitive_access@,
            ));
            assert(nc_views(b.network_connections@) + spec_sources_net(rest) =~= nc_views(
                b.network_connections@,
            ));
            assert(ps_views(b.processes_spawned@) + spec_sources_proc(rest) =~= ps_views(
                b.processes_spawned@,
            ));
        }
    } else {
        proof {
            assert(rest.subrange(1, rest.len() as int) =~= views(contents@).subrange(
                from + 1,
                contents@.len() as int,
            ));
            assert(rest[0] == contents@[from as int]@);
        }
        scan_source_content(b, contents[from].as_str());
        analyze_sources_from(b, contents, from + 1);
        proof {
            assert(sa_views(b.sensitive_access@) =~= sa_views(old(b).sensitive_access@)
                + spec_sources_sensitive(rest));
            assert(nc_views(b.network_connections@) =~= nc_views(old(b).network_connections@)
                + spec_sources_net(rest));
            assert(ps_views(b.processes_spawned@) =~= ps_views(old(b).processes_spawned@)
                + spec_sources_proc(rest));
        }
    }
}

/// Run the five fixed detectors over every gathered source file, in order.
/// This is the static pass that runs whether or not tracing was available.
pub fn analyze_sources(b: &mut SandboxBehavior, contents: &Vec<String>)
    ensures
        views(final(b).env_vars_accessed@) == spec_sources_env(
            views(old(b).env_vars_accessed@),
            views(contents@),
        ),
        sa_views(final(b).sensitive_access@) == sa_views(old(b).sensitive_access@)
            + spec_sources_sensitive(views(contents@)),
        nc_views(final(b).network_connections@) == nc_views(old(b).network_connections@)
            + spec_sources_net(views(contents@)),
        ps_views(final(b).processes_spawned@) == ps_views(old(b).processes_spawned@)
            + spec_sources_proc(views(contents@)),
        final(b).files_read == old(b).files_read,
        final(b).files_written == old(b).files_written,
        final(b).exit_code == old(b).exit_code,
{
    proof {
        assert(views(contents@).subrange(0, contents@.len() as int) =~= views(contents@));
    }
    analyze_sources_from(b, contents, 0);
}

/// Whether a file name ends in one of the source extensions the static
/// pass reads: `.js`, `.ts`, `.mjs`, `.cjs`.
pub open spec fn spec_source_file(name: Seq<char>) -> bool {
    spec_ends_with(name, ".js"@) || spec_ends_with(name, ".ts"@) || spec_ends_with(name, ".mjs"@)
        || spec_ends_with(name, ".cjs"@)
}

/// `s` ends with `suffix`.
pub open spec fn spec_ends_with(s: Seq<char>, suffix: Seq<char>) -> bool {
    s.len() >= suffix.len() && s.subrange(s.len() - suffix.len(), s.len() as int) == suffix
}

/// Whether `s` ends with `suffix`.
pub fn ends_with(s: &str, suffix: &str) -> (r: bool)
    ensures
        r == spec_ends_with(s@, suffix@),
{
    let slen = s.unicode_len();
    let xlen = suffix.unicode_len();
    if xlen > slen {
        return false;
    }
    let tail = s.substring_char(slen - xlen, slen);
    str_eq(tail, suffix)
}

/// Whether a file name is one the static pass reads.
pub fn is_source_file(name: &str) -> (r: bool)
    ensures
        r == spec_source_file(name@),
{
    ends_with(name, ".js") || ends_with(name, ".ts") || ends_with(name, ".mjs") || ends_with(
        name,
        ".cjs",
    )
}

/// The rendered result of one sandbox analysis: the score, the tier, and
/// the findings to show.
pub struct SandboxVerdict {
    pub score: i32,
    pub risk: crate::risk::RiskLevel,
    pub flags: Vec<crate::api::SandboxFlag>,
}

/// Fill in the documented defaults of an analysis response: score 0, tier
/// `safe`, no findings.
pub fn sandbox_verdict(resp: crate::api::SandboxAnalyzeResponse) -> (r: SandboxVerdict)
    ensures
        r.score == match resp.score {
            Some(s) => s,
            None => 0,
        },
        r.risk == crate::risk::spec_risk_of(
            crate::strutil::opt_str_or(resp.risk_level, "safe"@),
        ),
        r.flags@ == match resp.flags {
            Some(v) => v@,
            None => Seq::<crate::api::SandboxFlag>::empty(),
        },
{
    let risk = match &resp.risk_level {
        Some(s) => crate::risk::risk_level_from(s.as_str()),
        None => crate::risk::risk_level_from("safe"),
    };
    proof {
        reveal_strlit("safe");
    }
    SandboxVerdict {
        score: match resp.score {
            Some(s) => s,
            None => 0,
        },
        risk,
        flags: match resp.flags {
            Some(v) => v,
            None => Vec::new(),
        },
    }
}

/// Submit one collected report for analysis and render the verdict.  The
/// submission is framed by the library's verified encoder; a transport
/// failure is the error and the install decision already taken stands.
pub fn analyze_collected(
    cfg: &mut crate::config::ConfigStore,
    package: &str,
    version: &str,
    behavior: SandboxBehavior,
    prefix: &str,
) -> (r: Result<SandboxVerdict, String>)
    ensures
        forall|k2: Seq<char>|
            k2 != "device_id"@ ==> #[trigger] crate::config::lookup(final(cfg)@, k2)
                == crate::config::lookup(old(cfg)@, k2),
{
    let ghost m0 = cfg@;
    let device_id = cfg.get_device_id(prefix);
    proof {
        match crate::config::lookup(m0, "device_id"@) {
            Some(_) => {},
            None => {
                assert forall|k2: Seq<char>| k2 != "device_id"@ implies #[trigger] crate::config::lookup(
                    cfg@,
                    k2,
                ) == crate::config::lookup(m0, k2) by {
                    crate::config::lemma_set_then_get(m0, "device_id"@, device_id@, k2);
                }
            },
        }
    }
    let request = crate::api::SandboxAnalyzeRequest {
        package: String::from_str(package),
        version: String::from_str(version),
        behavior,
        source: String::from_str("local"),
        device_id,
    };
    match crate::api::analyze_sandbox(cfg, &request) {
        Err(e) => Err(e),
        Ok(resp) => Ok(sandbox_verdict(resp)),
    }
}

} // verus!
