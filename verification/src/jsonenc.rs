//! Verified JSON framing for the sandbox-analysis submission.
//!
//! The body posted to the analysis endpoint is built here character by
//! character against a structural specification: object keys in declaration
//! order, strings escaped, numbers in decimal.  Nothing outside the library
//! shapes these bytes.

use vstd::prelude::*;
use vstd::string::StrSliceExecFns;
use vstd::string::StringExecFns;
use crate::api::{
    NetworkConnection, ProcessSpawned, SandboxAnalyzeRequest, SandboxBehavior, SensitiveAccess,
};
use crate::strutil::{i32_dec_string, join_str, push_char, spec_idec, spec_join, views};

verus! {

/// The hexadecimal digit characters.
pub open spec fn spec_hex_digit(d: int) -> char {
    if d == 0 {
        '0'
    } else if d == 1 {
        '1'
    } else if d == 2 {
        '2'
    } else if d == 3 {
        '3'
    } else if d == 4 {
        '4'
    } else if d == 5 {
        '5'
    } else if d == 6 {
        '6'
    } else if d == 7 {
        '7'
    } else if d == 8 {
        '8'
    } else if d == 9 {
        '9'
    } else if d == 10 {
        'a'
    } else if d == 11 {
        'b'
    } else if d == 12 {
        'c'
    } else if d == 13 {
        'd'
    } else if d == 14 {
        'e'
    } else {
        'f'
    }
}

/// How one character is written inside a JSON string: quotes and
/// backslashes escaped, the common control characters short, the rest of
/// the control range as `\u00XX`, everything else as itself.
pub open spec fn spec_esc_char(c: char) -> Seq<char> {
    if c == '"' {
        seq!['\\', '"']
    } else if c == '\\' {
        seq!['\\', '\\']
    } else if c == '\n' {
        seq!['\\', 'n']
    } else if c == '\r' {
        seq!['\\', 'r']
    } else if c == '\t' {
        seq!['\\', 't']
    } else if (c as int) < 32 {
        seq!['\\', 'u', '0', '0', spec_hex_digit(c as int / 16), spec_hex_digit(c as int % 16)]
    } else {
        seq![c]
    }
}

/// The escaped body of a JSON string.
pub open spec fn spec_escape(s: Seq<char>) -> Seq<char>
    decreases s.len(),
{
    if s.len() == 0 {
        Seq::empty()
    } else {
        spec_esc_char(s[0]) + spec_escape(s.subrange(1, s.len() as int))
    }
}

/// Escaping distributes over concatenation.
proof fn lemma_escape_concat(a: Seq<char>, b: Seq<char>)
    ensures
        spec_escape(a + b) == spec_escape(a) + spec_escape(b),
    decreases a.len(),
{
    if a.len() == 0 {
        assert(a + b =~= b);
        assert(spec_escape(a) + spec_escape(b) =~= spec_escape(b));
    } else {
        let t = a.subrange(1, a.len() as int);
        lemma_escape_concat(t, b);
        assert((a + b).subrange(1, (a + b).len() as int) =~= t + b);
        assert((a + b)[0] == a[0]);
        assert(spec_escape(a + b) =~= spec_escape(a) + spec_escape(b));
    }
}

/// A whole JSON string: the escaped body in double quotes.
pub open spec fn spec_json_str(s: Seq<char>) -> Seq<char> {
    seq!['"'] + spec_escape(s) + seq!['"']
}

/// One hexadecimal digit as a character.
fn hex_char(d: u32) -> (r: char)
    requires
        d < 16,
    ensures
        r == spec_hex_digit(d as int),
{
    if d == 0 {
        '0'
    } else if d == 1 {
        '1'
    } else if d == 2 {
        '2'
    } else if d == 3 {
        '3'
    } else if d == 4 {
        '4'
    } else if d == 5 {
        '5'
    } else if d == 6 {
        '6'
    } else if d == 7 {
        '7'
    } else if d == 8 {
        '8'
    } else if d == 9 {
        '9'
    } else if d == 10 {
        'a'
    } else if d == 11 {
        'b'
    } else if d == 12 {
        'c'
    } else if d == 13 {
        'd'
    } else if d == 14 {
        'e'
    } else {
        'f'
    }
}

/// Append one character's escaped form.
fn esc_char_into(out: &mut String, c: char)
    ensures
        final(out)@ == old(out)@ + spec_esc_char(c),
{
    if c == '"' {
        push_char(out, '\\');
        push_char(out, '"');
        assert(out@ =~= old(out)@ + spec_esc_char(c));
    } else if c == '\\' {
        push_char(out, '\\');
        push_char(out, '\\');
        assert(out@ =~= old(out)@ + spec_esc_char(c));
    } else if c == '\n' {
        push_char(out, '\\');
        push_char(out, 'n');
        assert(out@ =~= old(out)@ + spec_esc_char(c));
    } else if c == '\r' {
        push_char(out, '\\');
        push_char(out, 'r');
        assert(out@ =~= old(out)@ + spec_esc_char(c));
    } else if c == '\t' {
        push_char(out, '\\');
        push_char(out, 't');
        assert(out@ =~= old(out)@ + spec_esc_char(c));
    } else if (c as u32) < 32 {
        let code = c as u32;
        push_char(out, '\\');
        push_char(out, 'u');
        push_char(out, '0');
        push_char(out, '0');
        push_char(out, hex_char(code / 16));
        push_char(out, hex_char(code % 16));
        assert(out@ =~= old(out)@ + spec_esc_char(c));
    } else {
        push_char(out, c);
        assert(out@ =~= old(out)@ + spec_esc_char(c));
    }
}

/// Append a whole JSON string rendering of `s`.
fn json_str_into(out: &mut String, s: &str)
    ensures
        final(out)@ == old(out)@ + spec_json_str(s@),
{
    push_char(out, '"');
    let len = s.unicode_len();
    let mut i: usize = 0;
    while i < len
        invariant
            i <= len,
            len == s@.len(),
            out@ == old(out)@ + seq!['"'] + spec_escape(s@.subrange(0, i as int)),
        decreases len - i,
    {
        let c = s.get_char(i);
        esc_char_into(out, c);
        proof {
            assert(s@.subrange(0, i + 1) =~= s@.subrange(0, i as int) + seq![s@[i as int]]);
            lemma_escape_concat(s@.subrange(0, i as int), seq![s@[i as int]]);
            let one = seq![s@[i as int]];
            assert(one.subrange(1, 1) =~= Seq::<char>::empty());
            assert(spec_escape(Seq::<char>::empty()) =~= Seq::<char>::empty());
            assert(spec_escape(one) =~= spec_esc_char(s@[i as int]));
            assert(out@ =~= old(out)@ + seq!['"'] + spec_escape(s@.subrange(0, i + 1)));
        }
        i += 1;
    }
    push_char(out, '"');
    proof {
        assert(s@.subrange(0, len as int) =~= s@);
        assert(out@ =~= old(out)@ + spec_json_str(s@));
    }
}

/// A JSON string as its own value.
pub fn json_string(s: &str) -> (r: String)
    ensures
        r@ == spec_json_str(s@),
{
    let mut out = String::new();
    json_str_into(&mut out, s);
    proof {
        assert(out@ =~= spec_json_str(s@));
    }
    out
}

/// An array holding the given pre-rendered values.
pub open spec fn spec_json_array(items: Seq<Seq<char>>) -> Seq<char> {
    seq!['['] + spec_join(items, seq![',']) + seq![']']
}

/// Render an array from its pre-rendered element values.
fn json_array_of(pieces: &Vec<String>) -> (r: String)
    ensures
        r@ == spec_json_array(views(pieces@)),
{
    let mut out = String::new();
    push_char(&mut out, '[');
    let joined = join_str(pieces, ",");
    proof {
        reveal_strlit(",");
        assert(","@ =~= seq![',']);
    }
    out.append(joined.as_str());
    push_char(&mut out, ']');
    proof {
        assert(out@ =~= spec_json_array(views(pieces@)));
    }
    out
}

/// The rendering of an array of strings.
pub open spec fn spec_json_str_array(items: Seq<Seq<char>>) -> Seq<char> {
    spec_json_array(items.map_values(|s: Seq<char>| spec_json_str(s)))
}

/// Render an array of strings.
fn json_str_array(items: &Vec<String>) -> (r: String)
    ensures
        r@ == spec_json_str_array(views(items@)),
{
    let ghost target = views(items@).map_values(|s: Seq<char>| spec_json_str(s));
    let mut pieces: Vec<String> = Vec::new();
    let n = items.len();
    let mut i: usize = 0;
    while i < n
        invariant
            i <= n,
            n == items@.len(),
            target == views(items@).map_values(|s: Seq<char>| spec_json_str(s)),
            pieces@.len() == i,
            views(pieces@) =~= target.subrange(0, i as int),
        decreases n - i,
    {
        pieces.push(json_string(items[i].as_str()));
        proof {
            assert(views(pieces@) =~= target.subrange(0, i + 1));
        }
        i += 1;
    }
    proof {
        assert(views(pieces@) =~= target);
    }
    json_array_of(&pieces)
}

/// The rendering of `null` or a JSON string.
pub open spec fn spec_json_opt_str(o: Option<String>) -> Seq<char> {
    match o {
        Some(s) => spec_json_str(s@),
        None => "null"@,
    }
}

/// The rendering of one observed connection.
pub open spec fn spec_nc_json(x: NetworkConnection) -> Seq<char> {
    "{\"host\":"@ + spec_json_opt_str(x.host) + ",\"ip\":"@ + spec_json_opt_str(x.ip)
        + ",\"port\":"@ + spec_idec(x.port as int) + "}"@
}

/// Render one observed connection.
fn nc_json(x: &NetworkConnection) -> (r: String)
    ensures
        r@ == spec_nc_json(*x),
{
    let mut out = String::from_str("{\"host\":");
    match &x.host {
        Some(h) => {
            let q = json_string(h.as_str());
            out.append(q.as_str());
        },
        None => {
            out.append("null");
        },
    }
    out.append(",\"ip\":");
    match &x.ip {
        Some(ip) => {
            let q = json_string(ip.as_str());
            out.append(q.as_str());
        },
        None => {
            out.append("null");
        },
    }
    out.append(",\"port\":");
    let d = i32_dec_string(x.port);
    out.append(d.as_str());
    out.append("}");
    proof {
        assert(out@ =~= spec_nc_json(*x));
    }
    out
}

/// The rendering of one observed process spawn.
pub open spec fn spec_ps_json(x: ProcessSpawned) -> Seq<char> {
    "{\"executable\":"@ + spec_json_str(x.executable@) + ",\"args\":"@ + spec_json_str_array(
        views(x.args@),
    ) + "}"@
}

/// Render one observed process spawn.
fn ps_json(x: &ProcessSpawned) -> (r: String)
    ensures
        r@ == spec_ps_json(*x),
{
    let mut out = String::from_str("{\"executable\":");
    let q = json_string(x.executable.as_str());
    out.append(q.as_str());
    out.append(",\"args\":");
    let a = json_str_array(&x.args);
    out.append(a.as_str());
    out.append("}");
    proof {
        assert(out@ =~= spec_ps_json(*x));
    }
    out
}

/// The rendering of one sensitive access.
pub open spec fn spec_sa_json(x: SensitiveAccess) -> Seq<char> {
    "{\"type\":"@ + spec_json_str(x.access_type@) + ",\"path\":"@ + spec_json_str(x.path@) + "}"@
}

/// Render one sensitive access.
fn sa_json(x: &SensitiveAccess) -> (r: String)
    ensures
        r@ == spec_sa_json(*x),
{
    let mut out = String::from_str("{\"type\":");
    let q = json_string(x.access_type.as_str());
    out.append(q.as_str());
    out.append(",\"path\":");
    let p = json_string(x.path.as_str());
    out.append(p.as_str());
    out.append("}");
    proof {
        assert(out@ =~= spec_sa_json(*x));
    }
    out
}

/// The rendering of a whole behavior report, keys in declaration order.
pub open spec fn spec_behavior_json(b: SandboxBehavior) -> Seq<char> {
    "{\"filesRead\":"@ + spec_json_str_array(views(b.files_read@)) + ",\"filesWritten\":"@
        + spec_json_str_array(views(b.files_written@)) + ",\"networkConnections\":"@
        + spec_json_array(
        b.network_connections@.map_values(|x: NetworkConnection| spec_nc_json(x)),
    ) + ",\"processesSpawned\":"@ + spec_json_array(
        b.processes_spawned@.map_values(|x: ProcessSpawned| spec_ps_json(x)),
    ) + ",\"envVarsAccessed\":"@ + spec_json_str_array(views(b.env_vars_accessed@))
        + ",\"sensitiveAccess\":"@ + spec_json_array(
        b.sensitive_access@.map_values(|x: SensitiveAccess| spec_sa_json(x)),
    ) + ",\"exitCode\":"@ + spec_idec(b.exit_code as int) + "}"@
}

/// Render the connections array.
fn nc_array(items: &Vec<NetworkConnection>) -> (r: String)
    ensures
        r@ == spec_json_array(items@.map_values(|x: NetworkConnection| spec_nc_json(x))),
{
    let ghost target = items@.map_values(|x: NetworkConnection| spec_nc_json(x));
    let mut pieces: Vec<String> = Vec::new();
    let n = items.len();
    let mut i: usize = 0;
    while i < n
        invariant
            i <= n,
            n == items@.len(),
            target == items@.map_values(|x: NetworkConnection| spec_nc_json(x)),
            pieces@.len() == i,
            views(pieces@) =~= target.subrange(0, i as int),
        decreases n - i,
    {
        pieces.push(nc_json(&items[i]));
        proof {
            assert(views(pieces@) =~= target.subrange(0, i + 1));
        }
        i += 1;
    }
    proof {
        assert(views(pieces@) =~= target);
    }
    json_array_of(&pieces)
}

/// Render the process-spawn array.
fn ps_array(items: &Vec<ProcessSpawned>) -> (r: String)
    ensures
        r@ == spec_json_array(items@.map_values(|x: ProcessSpawned| spec_ps_json(x))),
{
    let ghost target = items@.map_values(|x: ProcessSpawned| spec_ps_json(x));
    let mut pieces: Vec<String> = Vec::new();
    let n = items.len();
    let mut i: usize = 0;
    while i < n
        invariant
            i <= n,
            n == items@.len(),
            target == items@.map_values(|x: ProcessSpawned| spec_ps_json(x)),
            pieces@.len() == i,
            views(pieces@) =~= target.subrange(0, i as int),
        decreases n - i,
    {
        pieces.push(ps_json(&items[i]));
        proof {
            assert(views(pieces@) =~= target.subrange(0, i + 1));
        }
        i += 1;
    }
    proof {
        assert(views(pieces@) =~= target);
    }
    json_array_of(&pieces)
}

/// Render the sensitive-access array.
fn sa_array(items: &Vec<SensitiveAccess>) -> (r: String)
    ensures
        r@ == spec_json_array(items@.map_values(|x: SensitiveAccess| spec_sa_json(x))),
{
    let ghost target = items@.map_values(|x: SensitiveAccess| spec_sa_json(x));
    let mut pieces: Vec<String> = Vec::new();
    let n = items.len();
    let mut i: usize = 0;
    while i < n
        invariant
            i <= n,
            n == items@.len(),
            target == items@.map_values(|x: SensitiveAccess| spec_sa_json(x)),
            pieces@.len() == i,
            views(pieces@) =~= target.subrange(0, i as int),
        decreases n - i,
    {
        pieces.push(sa_json(&items[i]));
        proof {
            assert(views(pieces@) =~= target.subrange(0, i + 1));
        }
        i += 1;
    }
    proof {
        assert(views(pieces@) =~= target);
    }
    json_array_of(&pieces)
}

/// Render a whole behavior report.
pub fn behavior_json(b: &SandboxBehavior) -> (r: String)
    ensures
        r@ == spec_behavior_json(*b),
{
    let mut out = String::from_str("{\"filesRead\":");
    let fr = json_str_array(&b.files_read);
    out.append(fr.as_str());
    out.append(",\"filesWritten\":");
    let fw = json_str_array(&b.files_written);
    out.append(fw.as_str());
    out.append(",\"networkConnections\":");
    let nc = nc_array(&b.network_connections);
    out.append(nc.as_str());
    out.append(",\"processesSpawned\":");
    let ps = ps_array(&b.processes_spawned);
    out.append(ps.as_str());
    out.append(",\"envVarsAccessed\":");
    let ev = json_str_array(&b.env_vars_accessed);
    out.append(ev.as_str());
    out.append(",\"sensitiveAccess\":");
    let sa = sa_array(&b.sensitive_access);
    out.append(sa.as_str());
    out.append(",\"exitCode\":");
    let ec = i32_dec_string(b.exit_code);
    out.append(ec.as_str());
    out.append("}");
    proof {
        assert(out@ =~= spec_behavior_json(*b));
    }
    out
}

/// The rendering of a whole analysis submission, keys in declaration order.
pub open spec fn spec_request_json(r: SandboxAnalyzeRequest) -> Seq<char> {
    "{\"package\":"@ + spec_json_str(r.package@) + ",\"version\":"@ + spec_json_str(r.version@)
        + ",\"behavior\":"@ + spec_behavior_json(r.behavior) + ",\"source\":"@ + spec_json_str(
        r.source@,
    ) + ",\"deviceId\":"@ + spec_json_str(r.device_id@) + "}"@
}

/// Render a whole analysis submission.
pub fn encode_analyze_request(req: &SandboxAnalyzeRequest) -> (r: String)
    ensures
        r@ == spec_request_json(*req),
{
    let mut out = String::from_str("{\"package\":");
    let p = json_string(req.package.as_str());
    out.append(p.as_str());
    out.append(",\"version\":");
    let v = json_string(req.version.as_str());
    out.append(v.as_str());
    out.append(",\"behavior\":");
    let b = behavior_json(&req.behavior);
    out.append(b.as_str());
    out.append(",\"source\":");
    let s = json_string(req.source.as_str());
    out.append(s.as_str());
    out.append(",\"deviceId\":");
    let d = json_string(req.device_id.as_str());
    out.append(d.as_str());
    out.append("}");
    proof {
        assert(out@ =~= spec_request_json(*req));
    }
    out
}

} // verus!
