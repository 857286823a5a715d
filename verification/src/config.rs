//! The flat key-value configuration store.
//!
//! The store is an explicit load-mutate-save value: `parse_config` turns file
//! content into a `ConfigStore`, the methods mutate it in memory, and
//! `serialize_config` renders it back to the `key=value` lines that the
//! caller persists.  Reading a key returns the first entry with that key;
//! setting a key removes every entry with it and prepends the new one, so a
//! written key is always read back unchanged.

use vstd::prelude::*;
use vstd::string::StrSliceExecFns;
use vstd::string::StringExecFns;
use crate::strutil::{
    find_char, join_str, lemma_find_characterization, spec_find, spec_join,
    spec_split, spec_trim, split_char, str_eq, trim, views,
};

verus! {

/// The address of the remote scoring service used when none is configured.
pub const DEFAULT_API_URL: &'static str = "https://admired-chickadee-733.convex.site";

/// One `key=value` line of the store.
pub struct ConfigEntry {
    pub key: String,
    pub value: String,
}

/// The in-memory configuration: an ordered list of entries, first match wins.
pub struct ConfigStore {
    pub entries: Vec<ConfigEntry>,
}

/// The mathematical content of an entry list: key/value pairs of character
/// sequences.
pub open spec fn entry_views(s: Seq<ConfigEntry>) -> Seq<(Seq<char>, Seq<char>)> {
    s.map_values(|e: ConfigEntry| (e.key@, e.value@))
}

impl View for ConfigStore {
    type V = Seq<(Seq<char>, Seq<char>)>;

    open spec fn view(&self) -> Seq<(Seq<char>, Seq<char>)> {
        entry_views(self.entries@)
    }
}

/// The value of the first pair whose key is `k`, if any.
pub open spec fn lookup(m: Seq<(Seq<char>, Seq<char>)>, k: Seq<char>) -> Option<Seq<char>>
    decreases m.len(),
{
    if m.len() == 0 {
        None
    } else if m[0].0 == k {
        Some(m[0].1)
    } else {
        lookup(m.subrange(1, m.len() as int), k)
    }
}

/// `m` with every pair keyed `k` removed.
pub open spec fn spec_remove_key(
    m: Seq<(Seq<char>, Seq<char>)>,
    k: Seq<char>,
) -> Seq<(Seq<char>, Seq<char>)>
    decreases m.len(),
{
    if m.len() == 0 {
        m
    } else if m[0].0 == k {
        spec_remove_key(m.subrange(1, m.len() as int), k)
    } else {
        seq![m[0]] + spec_remove_key(m.subrange(1, m.len() as int), k)
    }
}

/// What `set` does to the model: drop the key, prepend the new pair.
pub open spec fn spec_set(
    m: Seq<(Seq<char>, Seq<char>)>,
    k: Seq<char>,
    v: Seq<char>,
) -> Seq<(Seq<char>, Seq<char>)> {
    seq![(k, v)] + spec_remove_key(m, k)
}

/// A key that exists is found at its first position.
pub proof fn lemma_lookup_at(m: Seq<(Seq<char>, Seq<char>)>, k: Seq<char>, i: int)
    requires
        0 <= i < m.len(),
        m[i].0 == k,
        forall|j: int| 0 <= j < i ==> (#[trigger] m[j]).0 != k,
    ensures
        lookup(m, k) == Some(m[i].1),
    decreases m.len(),
{
    if i > 0 {
        lemma_lookup_at(m.subrange(1, m.len() as int), k, i - 1);
    }
}

/// A key that no pair carries is not found.
pub proof fn lemma_lookup_absent(m: Seq<(Seq<char>, Seq<char>)>, k: Seq<char>)
    requires
        forall|j: int| 0 <= j < m.len() ==> (#[trigger] m[j]).0 != k,
    ensures
        lookup(m, k) == None::<Seq<char>>,
    decreases m.len(),
{
    if m.len() > 0 {
        lemma_lookup_absent(m.subrange(1, m.len() as int), k);
    }
}

/// Removing one key leaves every other key's first value unchanged.
pub proof fn lemma_lookup_remove_other(
    m: Seq<(Seq<char>, Seq<char>)>,
    k: Seq<char>,
    k2: Seq<char>,
)
    requires
        k2 != k,
    ensures
        lookup(spec_remove_key(m, k), k2) == lookup(m, k2),
    decreases m.len(),
{
    if m.len() == 0 {
    } else {
        let rest = m.subrange(1, m.len() as int);
        lemma_lookup_remove_other(rest, k, k2);
        if m[0].0 == k {
        } else {
            let tail = spec_remove_key(rest, k);
            let whole = seq![m[0]] + tail;
            assert(whole.subrange(1, whole.len() as int) =~= tail);
        }
    }
}

/// Unique keys: no key appears twice in the model.
pub open spec fn wf_keys(m: Seq<(Seq<char>, Seq<char>)>) -> bool
    decreases m.len(),
{
    m.len() == 0 || (lookup(m.subrange(1, m.len() as int), m[0].0) == None::<Seq<char>>
        && wf_keys(m.subrange(1, m.len() as int)))
}

/// After removal the key is gone.
pub proof fn lemma_remove_key_absent(m: Seq<(Seq<char>, Seq<char>)>, k: Seq<char>)
    ensures
        lookup(spec_remove_key(m, k), k) == None::<Seq<char>>,
    decreases m.len(),
{
    if m.len() == 0 {
    } else {
        let rest = m.subrange(1, m.len() as int);
        lemma_remove_key_absent(rest, k);
        if m[0].0 == k {
        } else {
            let tail = spec_remove_key(rest, k);
            let whole = seq![m[0]] + tail;
            assert(whole.subrange(1, whole.len() as int) =~= tail);
        }
    }
}

/// Removing a key keeps the remaining keys unique.
pub proof fn lemma_remove_key_wf(m: Seq<(Seq<char>, Seq<char>)>, k: Seq<char>)
    requires
        wf_keys(m),
    ensures
        wf_keys(spec_remove_key(m, k)),
    decreases m.len(),
{
    if m.len() == 0 {
    } else {
        let rest = m.subrange(1, m.len() as int);
        lemma_remove_key_wf(rest, k);
        if m[0].0 == k {
        } else {
            let tail = spec_remove_key(rest, k);
            let whole = seq![m[0]] + tail;
            assert(whole.subrange(1, whole.len() as int) =~= tail);
            lemma_lookup_remove_other(rest, k, m[0].0);
        }
    }
}

/// Setting a key keeps the keys unique.
pub proof fn lemma_set_wf(m: Seq<(Seq<char>, Seq<char>)>, k: Seq<char>, v: Seq<char>)
    requires
        wf_keys(m),
    ensures
        wf_keys(spec_set(m, k, v)),
{
    lemma_remove_key_absent(m, k);
    lemma_remove_key_wf(m, k);
    let out = spec_set(m, k, v);
    assert(out.subrange(1, out.len() as int) =~= spec_remove_key(m, k));
}

/// A value just written is read back exactly, and no other key moved.
/// This is the store's round-trip law.
pub proof fn lemma_set_then_get(
    m: Seq<(Seq<char>, Seq<char>)>,
    k: Seq<char>,
    v: Seq<char>,
    k2: Seq<char>,
)
    ensures
        lookup(spec_set(m, k, v), k) == Some(v),
        k2 != k ==> lookup(spec_set(m, k, v), k2) == lookup(m, k2),
{
    let out = spec_set(m, k, v);
    assert(out[0] == (k, v));
    assert(out.subrange(1, out.len() as int) =~= spec_remove_key(m, k));
    if k2 != k {
        lemma_lookup_remove_other(m, k, k2);
    }
}

/// Copy an entry; the standard derive carries no specification, so the copy
/// is written out.
fn clone_entry(e: &ConfigEntry) -> (r: ConfigEntry)
    ensures
        r.key@ == e.key@,
        r.value@ == e.value@,
{
    ConfigEntry { key: e.key.clone(), value: e.value.clone() }
}

/// The entries from index `from` on, with every entry keyed `key` removed.
fn remove_key_from(entries: &Vec<ConfigEntry>, from: usize, key: &str) -> (r: Vec<ConfigEntry>)
    requires
        from <= entries@.len(),
    ensures
        entry_views(r@) == spec_remove_key(
            entry_views(entries@).subrange(from as int, entries@.len() as int),
            key@,
        ),
    decreases entries@.len() - from,
{
    let ghost m = entry_views(entries@).subrange(from as int, entries@.len() as int);
    if from == entries.len() {
        let r: Vec<ConfigEntry> = Vec::new();
        assert(entry_views(r@) =~= spec_remove_key(m, key@));
        r
    } else {
        let rest = remove_key_from(entries, from + 1, key);
        proof {
            assert(m.subrange(1, m.len() as int) =~= entry_views(entries@).subrange(
                from + 1,
                entries@.len() as int,
            ));
        }
        let e = &entries[from];
        if str_eq(e.key.as_str(), key) {
            rest
        } else {
            let mut r = rest;
            r.insert(0, clone_entry(e));
            assert(entry_views(r@) =~= seq![m[from as int - from]] + spec_remove_key(
                m.subrange(1, m.len() as int),
                key@,
            ));
            r
        }
    }
}

/// The `key=value` rendering of one pair.
pub open spec fn spec_entry_line(p: (Seq<char>, Seq<char>)) -> Seq<char> {
    p.0 + "="@ + p.1
}

/// The rendered lines of a whole model.
pub open spec fn spec_lines(m: Seq<(Seq<char>, Seq<char>)>) -> Seq<Seq<char>> {
    m.map_values(|p: (Seq<char>, Seq<char>)| spec_entry_line(p))
}

/// The file content a model serializes to: its lines joined by newlines.
pub open spec fn spec_serialize(m: Seq<(Seq<char>, Seq<char>)>) -> Seq<char> {
    spec_join(spec_lines(m), "\n"@)
}

/// What one line contributes to the model: nothing without `=`, otherwise
/// the trimmed key set to the trimmed value.
pub open spec fn spec_parse_line(
    m: Seq<(Seq<char>, Seq<char>)>,
    l: Seq<char>,
) -> Seq<(Seq<char>, Seq<char>)> {
    match spec_find(l, '=') {
        None => m,
        Some(i) => spec_set(m, spec_trim(l.subrange(0, i)), spec_trim(l.subrange(i + 1, l.len() as int))),
    }
}

/// The lines folded into a model, first line first.
pub open spec fn spec_parse_lines(
    m: Seq<(Seq<char>, Seq<char>)>,
    lines: Seq<Seq<char>>,
) -> Seq<(Seq<char>, Seq<char>)>
    decreases lines.len(),
{
    if lines.len() == 0 {
        m
    } else {
        spec_parse_lines(spec_parse_line(m, lines[0]), lines.subrange(1, lines.len() as int))
    }
}

/// The model a file content parses to.
pub open spec fn spec_parse(s: Seq<char>) -> Seq<(Seq<char>, Seq<char>)> {
    spec_parse_lines(Seq::empty(), spec_split(s, '\n'))
}

/// Read the store back from file content: one `key=value` per line, keys and
/// values trimmed, lines without `=` ignored, a repeated key keeping its last
/// value.
pub fn parse_config(content: &str) -> (r: ConfigStore)
    ensures
        r@ == spec_parse(content@),
        wf_keys(r@),
{
    let lines = split_char(content, '\n');
    let ghost ls = spec_split(content@, '\n');
    proof {
        assert(views(lines@) =~= ls);
    }
    let mut store = ConfigStore::new();
    let n = lines.len();
    proof {
        assert(store@ =~= Seq::<(Seq<char>, Seq<char>)>::empty());
        assert(ls.subrange(0, n as int) =~= ls);
    }
    let mut i: usize = 0;
    while i < n
        invariant
            i <= n,
            n == lines@.len(),
            views(lines@) == ls,
            spec_parse_lines(store@, ls.subrange(i as int, n as int)) == spec_parse(content@),
        decreases n - i,
    {
        let ghost pre = store@;
        let line: &str = lines[i].as_str();
        proof {
            assert(line@ == ls[i as int]);
            lemma_find_characterization(line@, '=');
        }
        match find_char(line, '=') {
            Some(p) => {
                let len = line.unicode_len();
                let k = trim(line.substring_char(0, p));
                let v = trim(line.substring_char(p + 1, len));
                store.set_config_value(k, v);
            },
            None => {},
        }
        proof {
            assert(store@ == spec_parse_line(pre, ls[i as int]));
            assert(ls.subrange(i as int, n as int).subrange(
                1,
                ls.subrange(i as int, n as int).len() as int,
            ) =~= ls.subrange(i + 1, n as int));
        }
        i += 1;
    }
    proof {
        assert(ls.subrange(n as int, n as int) =~= Seq::<Seq<char>>::empty());
        lemma_parse_lines_wf(Seq::empty(), ls);
    }
    store
}

/// Render the store to file content, one `key=value` line per entry.
pub fn serialize_config(cfg: &ConfigStore) -> (r: String)
    ensures
        r@ == spec_serialize(cfg@),
{
    let mut lines: Vec<String> = Vec::new();
    let n = cfg.entries.len();
    let mut i: usize = 0;
    while i < n
        invariant
            i <= n,
            n == cfg.entries@.len(),
            lines@.len() == i,
            views(lines@) =~= spec_lines(cfg@).subrange(0, i as int),
        decreases n - i,
    {
        let mut l = cfg.entries[i].key.clone();
        l.append("=");
        l.append(cfg.entries[i].value.as_str());
        proof {
            assert(l@ == cfg.entries@[i as int].key@ + "="@ + cfg.entries@[i as int].value@);
        }
        let ghost lv = l@;
        lines.push(l);
        proof {
            assert(cfg@[i as int] == (cfg.entries@[i as int].key@, cfg.entries@[i as int].value@));
            assert(lines@[i as int]@ == lv);
            assert(lv == cfg@[i as int].0 + "="@ + cfg@[i as int].1);
            assert(spec_lines(cfg@)[i as int] == spec_entry_line(cfg@[i as int]));
            assert(views(lines@) =~= spec_lines(cfg@).subrange(0, i + 1));
        }
        i += 1;
    }
    proof {
        assert(spec_lines(cfg@).subrange(0, n as int) =~= spec_lines(cfg@));
        assert(views(lines@) == spec_lines(cfg@));
    }
    join_str(&lines, "\n")
}

impl ConfigStore {
    /// An empty store.
    pub fn new() -> (r: ConfigStore)
        ensures
            r@ =~= Seq::<(Seq<char>, Seq<char>)>::empty(),
            wf_keys(r@),
    {
        let r = ConfigStore { entries: Vec::new() };
        proof {
            assert(r@ =~= Seq::<(Seq<char>, Seq<char>)>::empty());
        }
        r
    }

    /// Get a specific config value.
    pub fn get_config_value(&self, key: &str) -> (r: Option<String>)
        ensures
            match r {
                Some(v) => lookup(self@, key@) == Some(v@),
                None => lookup(self@, key@) == None::<Seq<char>>,
            },
    {
        let ghost m = self@;
        let n = self.entries.len();
        let mut i: usize = 0;
        while i < n
            invariant
                i <= n,
                n == self.entries@.len(),
                m == self@,
                forall|j: int| 0 <= j < i ==> (#[trigger] m[j]).0 != key@,
            decreases n - i,
        {
            if str_eq(self.entries[i].key.as_str(), key) {
                proof {
                    lemma_lookup_at(m, key@, i as int);
                }
                return Some(self.entries[i].value.clone());
            }
            i += 1;
        }
        proof {
            lemma_lookup_absent(m, key@);
        }
        None
    }

    /// Get a config value, or `default` where the key is absent.
    pub fn get_config_value_or(&self, key: &str, default: &str) -> (r: String)
        ensures
            r@ == match lookup(self@, key@) {
                Some(v) => v,
                None => default@,
            },
    {
        match self.get_config_value(key) {
            Some(v) => v,
            None => String::from_str(default),
        }
    }

    /// Set a config value: last write wins, every other key untouched.
    pub fn set_config_value(&mut self, key: &str, value: &str)
        ensures
            final(self)@ == spec_set(old(self)@, key@, value@),
            lookup(final(self)@, key@) == Some(value@),
            forall|k2: Seq<char>|
                k2 != key@ ==> #[trigger] lookup(final(self)@, k2) == lookup(old(self)@, k2),
            wf_keys(old(self)@) ==> wf_keys(final(self)@),
    {
        let ghost m0 = self@;
        let filtered = remove_key_from(&self.entries, 0, key);
        proof {
            assert(entry_views(self.entries@).subrange(0, self.entries@.len() as int)
                =~= entry_views(self.entries@));
        }
        let mut v = filtered;
        v.insert(
            0,
            ConfigEntry { key: String::from_str(key), value: String::from_str(value) },
        );
        self.entries = v;
        proof {
            assert(self@ =~= spec_set(m0, key@, value@));
            lemma_set_then_get(m0, key@, value@, key@);
            assert forall|k2: Seq<char>| k2 != key@ implies #[trigger] lookup(self@, k2) == lookup(
                m0,
                k2,
            ) by {
                lemma_set_then_get(m0, key@, value@, k2);
            }
            if wf_keys(m0) {
                lemma_set_wf(m0, key@, value@);
            }
        }
    }

    /// Get the API URL, falling back to the built-in default.
    pub fn get_api_url(&self) -> (r: String)
        ensures
            r@ == spec_value_or(self@, "api_url"@, DEFAULT_API_URL@),
    {
        self.get_config_value_or("api_url", DEFAULT_API_URL)
    }

    /// Get the plan name, `free` when none is stored.
    pub fn get_plan(&self) -> (r: String)
        ensures
            r@ == spec_value_or(self@, "plan"@, "free"@),
    {
        self.get_config_value_or("plan", "free")
    }

    /// Whether the stored plan unlocks Pro analysis.
    pub fn is_pro(&self) -> (r: bool)
        ensures
            r == plan_is_pro(spec_value_or(self@, "plan"@, "free"@)),
    {
        let plan = self.get_plan();
        str_eq(plan.as_str(), "pro") || str_eq(plan.as_str(), "enterprise")
    }

    /// Get the API key: a stored, non-empty value only.
    pub fn get_api_key(&self) -> (r: Option<String>)
        ensures
            match r {
                Some(k) => lookup(self@, "api_key"@) == Some(k@) && k@.len() > 0,
                None => lookup(self@, "api_key"@) matches Some(v) ==> v.len() == 0,
            },
    {
        match self.get_config_value("api_key") {
            Some(k) => {
                if k.as_str().unicode_len() > 0 {
                    Some(k)
                } else {
                    None
                }
            },
            None => None,
        }
    }

    /// Get the device ID, generating and storing one on first use.
    /// `prefix` names the platform the caller detected.
    pub fn get_device_id(&mut self, prefix: &str) -> (r: String)
        ensures
            match lookup(old(self)@, "device_id"@) {
                Some(v) => r@ == v && final(self)@ == old(self)@,
                None => final(self)@ == spec_set(old(self)@, "device_id"@, r@) && is_device_id(
                    r@,
                    prefix@,
                ),
            },
    {
        match self.get_config_value("device_id") {
            Some(id) => id,
            None => {
                let id = generate_device_id(prefix);
                self.set_config_value("device_id", id.as_str());
                id
            },
        }
    }
}

/// The value under `k`, or `d` where `k` is absent.
pub open spec fn spec_value_or(
    m: Seq<(Seq<char>, Seq<char>)>,
    k: Seq<char>,
    d: Seq<char>,
) -> Seq<char> {
    match lookup(m, k) {
        Some(v) => v,
        None => d,
    }
}

/// The plan tiers that unlock remote Pro analysis.
pub open spec fn plan_is_pro(plan: Seq<char>) -> bool {
    plan == "pro"@ || plan == "enterprise"@
}

/// The shape of a generated device identity: the platform prefix, an
/// underscore, and a 36-character random identifier.
pub open spec fn is_device_id(s: Seq<char>, prefix: Seq<char>) -> bool {
    s.len() == prefix.len() + 37 && s.subrange(0, prefix.len() as int) == prefix && s[prefix.len() as int]
        == '_'
}

/// Generate a fresh device ID under the given platform prefix.
pub fn generate_device_id(prefix: &str) -> (r: String)
    ensures
        is_device_id(r@, prefix@),
{
    let mut id = String::from_str(prefix);
    id.append("_");
    let suffix = crate::host::random_identifier();
    id.append(suffix.as_str());
    proof {
        reveal_strlit("_");
        assert(id@ =~= prefix@ + "_"@ + suffix@);
        assert(id@.subrange(0, prefix@.len() as int) =~= prefix@);
    }
    id
}

/// The configuration directory under the user's home.
pub fn get_config_dir(home: &str) -> (r: String)
    ensures
        r@ == home@ + "/.sapo"@,
{
    let mut s = String::from_str(home);
    s.append("/.sapo");
    s
}

/// The config file path under the user's home.
pub fn get_config_path(home: &str) -> (r: String)
    ensures
        r@ == home@ + "/.sapo"@ + "/config"@,
{
    let mut s = get_config_dir(home);
    s.append("/config");
    s
}

/// The directory for installed helper binaries under the user's home.
pub fn get_bin_dir(home: &str) -> (r: String)
    ensures
        r@ == home@ + "/.sapo"@ + "/bin"@,
{
    let mut s = get_config_dir(home);
    s.append("/bin");
    s
}

/// The default configuration written on first run: a fresh device identity,
/// no API key, the free plan, the default endpoint, an empty trust set.
pub fn create_default_config(device_id: &str) -> (r: ConfigStore)
    ensures
        lookup(r@, "device_id"@) == Some(device_id@),
        lookup(r@, "api_key"@) == Some(""@),
        lookup(r@, "plan"@) == Some("free"@),
        lookup(r@, "api_url"@) == Some(DEFAULT_API_URL@),
        lookup(r@, "trusted"@) == Some(""@),
{
    proof {
        reveal_strlit("device_id");
        reveal_strlit("api_key");
        reveal_strlit("plan");
        reveal_strlit("api_url");
        reveal_strlit("trusted");
    }
    let mut store = ConfigStore::new();
    store.set_config_value("device_id", device_id);
    let ghost m1 = store@;
    store.set_config_value("api_key", "");
    let ghost m2 = store@;
    store.set_config_value("plan", "free");
    let ghost m3 = store@;
    store.set_config_value("api_url", DEFAULT_API_URL);
    let ghost m4 = store@;
    store.set_config_value("trusted", "");
    proof {
        assert("device_id"@.len() == 9 && "api_key"@.len() == 7 && "plan"@.len() == 4
            && "api_url"@.len() == 7 && "trusted"@.len() == 7);
        assert("api_key"@[4] == 'k' && "api_url"@[4] == 'u' && "trusted"@[4] == 't');
        assert("api_key"@[0] == 'a' && "trusted"@[0] == 't');
        assert(lookup(store@, "trusted"@) == Some(""@));
        assert(lookup(store@, "api_url"@) == lookup(m4, "api_url"@));
        assert(lookup(store@, "plan"@) == lookup(m4, "plan"@) && lookup(m4, "plan"@) == lookup(
            m3,
            "plan"@,
        ));
        assert(lookup(store@, "api_key"@) == lookup(m4, "api_key"@) && lookup(m4, "api_key"@)
            == lookup(m3, "api_key"@) && lookup(m3, "api_key"@) == lookup(m2, "api_key"@));
        assert(lookup(store@, "device_id"@) == lookup(m4, "device_id"@) && lookup(
            m4,
            "device_id"@,
        ) == lookup(m3, "device_id"@) && lookup(m3, "device_id"@) == lookup(m2, "device_id"@)
            && lookup(m2, "device_id"@) == lookup(m1, "device_id"@));
    }
    store
}

/// A pair the line format carries faithfully: the key free of `=` and of
/// newlines, the value free of newlines, and both already trimmed.
pub open spec fn storable_pair(p: (Seq<char>, Seq<char>)) -> bool {
    (forall|j: int| 0 <= j < p.0.len() ==> p.0[j] != '=' && p.0[j] != '\n') && (forall|j: int|
        0 <= j < p.1.len() ==> p.1[j] != '\n') && spec_trim(p.0) == p.0 && spec_trim(p.1) == p.1
}

/// Parsing the rendered line of a storable pair sets exactly that pair.
proof fn lemma_parse_entry_line(acc: Seq<(Seq<char>, Seq<char>)>, p: (Seq<char>, Seq<char>))
    requires
        storable_pair(p),
    ensures
        spec_parse_line(acc, spec_entry_line(p)) == spec_set(acc, p.0, p.1),
{
    reveal_strlit("=");
    assert("="@ =~= seq!['=']);
    let line = spec_entry_line(p);
    assert(line =~= p.0 + seq!['='] + p.1);
    crate::strutil::lemma_find_concat(p.0, '=', p.1);
    assert(spec_find(line, '=') == Some(p.0.len() as int));
    assert(line.subrange(0, p.0.len() as int) =~= p.0);
    assert(line.subrange(p.0.len() as int + 1, line.len() as int) =~= p.1);
}

/// Folding the rendered lines of a uniquely-keyed model over any
/// accumulator reads back each stored key, and leaves every other key to
/// the accumulator.
proof fn lemma_parse_lines_lookup(
    acc: Seq<(Seq<char>, Seq<char>)>,
    m: Seq<(Seq<char>, Seq<char>)>,
    k: Seq<char>,
)
    requires
        wf_keys(m),
        forall|i: int| 0 <= i < m.len() ==> storable_pair(#[trigger] m[i]),
    ensures
        lookup(spec_parse_lines(acc, spec_lines(m)), k) == match lookup(m, k) {
            Some(v) => Some(v),
            None => lookup(acc, k),
        },
    decreases m.len(),
{
    if m.len() == 0 {
        assert(spec_lines(m) =~= Seq::<Seq<char>>::empty());
    } else {
        let rest = m.subrange(1, m.len() as int);
        let lines = spec_lines(m);
        assert(lines[0] == spec_entry_line(m[0]));
        assert(lines.subrange(1, lines.len() as int) =~= spec_lines(rest));
        lemma_parse_entry_line(acc, m[0]);
        let acc2 = spec_set(acc, m[0].0, m[0].1);
        assert forall|i: int| 0 <= i < rest.len() implies storable_pair(#[trigger] rest[i]) by {
            assert(rest[i] == m[i + 1]);
        }
        lemma_parse_lines_lookup(acc2, rest, k);
        lemma_set_then_get(acc, m[0].0, m[0].1, k);
    }
}

/// Folding parsed lines preserves key uniqueness.
proof fn lemma_parse_lines_wf(acc: Seq<(Seq<char>, Seq<char>)>, lines: Seq<Seq<char>>)
    requires
        wf_keys(acc),
    ensures
        wf_keys(spec_parse_lines(acc, lines)),
    decreases lines.len(),
{
    if lines.len() == 0 {
    } else {
        let acc2 = spec_parse_line(acc, lines[0]);
        assert(wf_keys(acc2)) by {
            match spec_find(lines[0], '=') {
                None => {},
                Some(i) => {
                    lemma_set_wf(
                        acc,
                        spec_trim(lines[0].subrange(0, i)),
                        spec_trim(lines[0].subrange(i + 1, lines[0].len() as int)),
                    );
                },
            }
        }
        lemma_parse_lines_wf(acc2, lines.subrange(1, lines.len() as int));
    }
}

/// What a store saves, a fresh load reads back: every lookup of the parsed
/// serialization agrees with the model.  Keys must be unique, as the store
/// keeps them, and every pair storable: the line format cannot carry `=` in
/// a key, newlines, or surrounding whitespace.
pub proof fn lemma_store_round_trip(m: Seq<(Seq<char>, Seq<char>)>, k: Seq<char>)
    requires
        wf_keys(m),
        forall|i: int| 0 <= i < m.len() ==> storable_pair(#[trigger] m[i]),
    ensures
        lookup(spec_parse(spec_serialize(m)), k) == lookup(m, k),
{
    reveal_strlit("\n");
    reveal_strlit("=");
    assert("\n"@ =~= seq!['\n']);
    assert("="@ =~= seq!['=']);
    let e: Seq<char> = Seq::empty();
    if m.len() == 0 {
        assert(spec_lines(m) =~= Seq::<Seq<char>>::empty());
        assert(spec_serialize(m) == e);
        crate::strutil::lemma_find_absent(e, '\n');
        assert(spec_split(e, '\n') =~= seq![e]);
        assert(spec_find(e, '=') == None::<int>);
        let one = seq![e];
        assert(one.subrange(1, 1) =~= Seq::<Seq<char>>::empty());
        let m0: Seq<(Seq<char>, Seq<char>)> = Seq::empty();
        assert(spec_parse_line(m0, e) == m0);
        assert(spec_parse_lines(m0, Seq::<Seq<char>>::empty()) == m0);
        assert(spec_parse_lines(m0, one) == m0);
        assert(spec_parse(spec_serialize(m)) =~= Seq::<(Seq<char>, Seq<char>)>::empty());
    } else {
        let lines = spec_lines(m);
        assert forall|i: int, j: int|
            0 <= i < lines.len() && 0 <= j < lines[i].len() implies #[trigger] lines[i][j]
            != '\n' by {
            let p = m[i];
            assert(lines[i] == spec_entry_line(p));
            assert(lines[i] =~= p.0 + seq!['='] + p.1);
            if j < p.0.len() {
                assert(lines[i][j] == p.0[j]);
            } else if j == p.0.len() {
                assert(lines[i][j] == '=');
            } else {
                assert(lines[i][j] == p.1[j - p.0.len() - 1]);
            }
        }
        crate::strutil::lemma_split_join(lines, '\n');
        assert(spec_split(spec_serialize(m), '\n') == lines);
        lemma_parse_lines_lookup(Seq::empty(), m, k);
        match lookup(m, k) {
            Some(_) => {},
            None => {
                assert(lookup(Seq::<(Seq<char>, Seq<char>)>::empty(), k) == None::<Seq<char>>);
            },
        }
    }
}

} // verus!
