//! The trusted-package set: an allow-list of package names exempted from
//! scanning, stored under the `trusted` key as a comma-joined list.
//!
//! The set's model is the sequence of non-empty pieces of that value.  Adding
//! appends a name not yet present; removing drops every occurrence of a name.

use vstd::prelude::*;
use vstd::string::StrSliceExecFns;
use vstd::string::StringExecFns;
use crate::config::{lookup, ConfigStore};
use crate::strutil::{
    join_str, lemma_find_characterization, lemma_split_join, spec_find, spec_split, split_char,
    str_eq, views,
};

verus! {

/// The pieces that are not empty, in order.
pub open spec fn nonempty_pieces(parts: Seq<Seq<char>>) -> Seq<Seq<char>>
    decreases parts.len(),
{
    if parts.len() == 0 {
        Seq::empty()
    } else if parts[0].len() == 0 {
        nonempty_pieces(parts.subrange(1, parts.len() as int))
    } else {
        seq![parts[0]] + nonempty_pieces(parts.subrange(1, parts.len() as int))
    }
}

/// The trust set a configuration holds: the non-empty comma-separated pieces
/// of its `trusted` value.
pub open spec fn spec_trusted(m: Seq<(Seq<char>, Seq<char>)>) -> Seq<Seq<char>> {
    match lookup(m, "trusted"@) {
        None => Seq::empty(),
        Some(v) => nonempty_pieces(spec_split(v, ',')),
    }
}

/// What adding does to the set: nothing when present, else append.
pub open spec fn spec_add_pkg(t: Seq<Seq<char>>, p: Seq<char>) -> Seq<Seq<char>> {
    if t.contains(p) {
        t
    } else {
        t.push(p)
    }
}

/// What removing does to the set: drop every occurrence.
pub open spec fn spec_remove_pkg(t: Seq<Seq<char>>, p: Seq<char>) -> Seq<Seq<char>>
    decreases t.len(),
{
    if t.len() == 0 {
        t
    } else if t[0] == p {
        spec_remove_pkg(t.subrange(1, t.len() as int), p)
    } else {
        seq![t[0]] + spec_remove_pkg(t.subrange(1, t.len() as int), p)
    }
}

/// No piece a split produces contains the separator.
pub proof fn lemma_split_pieces_no_sep(s: Seq<char>, c: char)
    ensures
        forall|i: int, j: int|
            0 <= i < spec_split(s, c).len() && 0 <= j < spec_split(s, c)[i].len()
                ==> #[trigger] spec_split(s, c)[i][j] != c,
    decreases s.len(),
{
    lemma_find_characterization(s, c);
    match spec_find(s, c) {
        None => {},
        Some(k) => {
            let rest = s.subrange(k + 1, s.len() as int);
            lemma_split_pieces_no_sep(rest, c);
            assert forall|i: int, j: int|
                0 <= i < spec_split(s, c).len() && 0 <= j < spec_split(s, c)[i].len() implies #[trigger] spec_split(
                s,
                c,
            )[i][j] != c by {
                if i == 0 {
                    assert(spec_split(s, c)[0] == s.subrange(0, k));
                } else {
                    assert(spec_split(s, c)[i] == spec_split(rest, c)[i - 1]);
                }
            }
        },
    }
}

/// Filtering empties keeps pieces non-empty and keeps them free of `c`.
pub proof fn lemma_nonempty_pieces_props(parts: Seq<Seq<char>>, c: char)
    requires
        forall|i: int, j: int|
            0 <= i < parts.len() && 0 <= j < parts[i].len() ==> #[trigger] parts[i][j] != c,
    ensures
        forall|i: int|
            0 <= i < nonempty_pieces(parts).len() ==> (#[trigger] nonempty_pieces(parts)[i]).len()
                > 0,
        forall|i: int, j: int|
            0 <= i < nonempty_pieces(parts).len() && 0 <= j < nonempty_pieces(parts)[i].len()
                ==> #[trigger] nonempty_pieces(parts)[i][j] != c,
    decreases parts.len(),
{
    if parts.len() == 0 {
    } else {
        let rest = parts.subrange(1, parts.len() as int);
        lemma_nonempty_pieces_props(rest, c);
        if parts[0].len() == 0 {
        } else {
            assert forall|i: int|
                0 <= i < nonempty_pieces(parts).len() implies (#[trigger] nonempty_pieces(
                parts,
            )[i]).len() > 0 by {
                if i > 0 {
                    assert(nonempty_pieces(parts)[i] == nonempty_pieces(rest)[i - 1]);
                }
            }
            assert forall|i: int, j: int|
                0 <= i < nonempty_pieces(parts).len() && 0 <= j < nonempty_pieces(parts)[i].len()
                implies #[trigger] nonempty_pieces(parts)[i][j] != c by {
                if i > 0 {
                    assert(nonempty_pieces(parts)[i] == nonempty_pieces(rest)[i - 1]);
                }
            }
        }
    }
}

/// On pieces that are all non-empty, filtering empties changes nothing.
pub proof fn lemma_nonempty_pieces_id(parts: Seq<Seq<char>>)
    requires
        forall|i: int| 0 <= i < parts.len() ==> (#[trigger] parts[i]).len() > 0,
    ensures
        nonempty_pieces(parts) == parts,
    decreases parts.len(),
{
    if parts.len() == 0 {
        assert(nonempty_pieces(parts) =~= parts);
    } else {
        let rest = parts.subrange(1, parts.len() as int);
        lemma_nonempty_pieces_id(rest);
        assert(nonempty_pieces(parts) =~= parts);
    }
}

/// The pieces of a stored trust set are non-empty and comma-free.
pub proof fn lemma_trusted_pieces(m: Seq<(Seq<char>, Seq<char>)>)
    ensures
        forall|i: int|
            0 <= i < spec_trusted(m).len() ==> (#[trigger] spec_trusted(m)[i]).len() > 0,
        forall|i: int, j: int|
            0 <= i < spec_trusted(m).len() && 0 <= j < spec_trusted(m)[i].len()
                ==> #[trigger] spec_trusted(m)[i][j] != ',',
{
    match lookup(m, "trusted"@) {
        None => {},
        Some(v) => {
            lemma_split_pieces_no_sep(v, ',');
            lemma_nonempty_pieces_props(spec_split(v, ','), ',');
        },
    }
}

/// Adding a name not yet trusted and then removing it restores the set.
/// The pair fails on a set that already holds the name: removing then drops
/// it, so the law asks that the name be absent at the start.
pub proof fn lemma_trust_add_remove(t: Seq<Seq<char>>, p: Seq<char>)
    requires
        !t.contains(p),
    ensures
        spec_remove_pkg(spec_add_pkg(t, p), p) == t,
    decreases t.len(),
{
    let added = spec_add_pkg(t, p);
    assert(added == t.push(p));
    if t.len() == 0 {
        assert(added[0] == p);
        let e: Seq<Seq<char>> = Seq::empty();
        assert(added.subrange(1, added.len() as int) =~= e);
        assert(spec_remove_pkg(e, p) == e);
        assert(spec_remove_pkg(added, p) == spec_remove_pkg(e, p));
        assert(spec_remove_pkg(added, p) =~= t);
    } else {
        let rest = t.subrange(1, t.len() as int);
        assert(t[0] != p);
        assert(!rest.contains(p)) by {
            if rest.contains(p) {
                let i = choose|i: int| 0 <= i < rest.len() && rest[i] == p;
                assert(t[i + 1] == p);
            }
        }
        lemma_trust_add_remove(rest, p);
        assert(added[0] == t[0]);
        let dropped = added.subrange(1, added.len() as int);
        assert(dropped =~= rest.push(p));
        assert(spec_add_pkg(rest, p) == rest.push(p));
        assert(spec_remove_pkg(dropped, p) == rest);
        assert(spec_remove_pkg(added, p) == seq![added[0]] + spec_remove_pkg(dropped, p));
        assert(spec_remove_pkg(added, p) =~= t);
    }
}

/// The non-empty pieces of `parts`, from index `from` on.
fn keep_nonempty_from(parts: &Vec<String>, from: usize) -> (r: Vec<String>)
    requires
        from <= parts@.len(),
    ensures
        views(r@) == nonempty_pieces(views(parts@).subrange(from as int, parts@.len() as int)),
    decreases parts@.len() - from,
{
    let ghost m = views(parts@).subrange(from as int, parts@.len() as int);
    if from == parts.len() {
        let r: Vec<String> = Vec::new();
        assert(views(r@) =~= nonempty_pieces(m));
        r
    } else {
        let rest = keep_nonempty_from(parts, from + 1);
        proof {
            assert(m.subrange(1, m.len() as int) =~= views(parts@).subrange(
                from + 1,
                parts@.len() as int,
            ));
        }
        if parts[from].as_str().unicode_len() == 0 {
            rest
        } else {
            let mut r = rest;
            r.insert(0, parts[from].clone());
            assert(views(r@) =~= seq![m[0]] + nonempty_pieces(m.subrange(1, m.len() as int)));
            r
        }
    }
}

/// The set with every occurrence of `p` dropped, from index `from` on.
fn remove_pkg_from(parts: &Vec<String>, from: usize, p: &str) -> (r: Vec<String>)
    requires
        from <= parts@.len(),
    ensures
        views(r@) == spec_remove_pkg(
            views(parts@).subrange(from as int, parts@.len() as int),
            p@,
        ),
    decreases parts@.len() - from,
{
    let ghost m = views(parts@).subrange(from as int, parts@.len() as int);
    if from == parts.len() {
        let r: Vec<String> = Vec::new();
        assert(views(r@) =~= spec_remove_pkg(m, p@));
        r
    } else {
        let rest = remove_pkg_from(parts, from + 1, p);
        proof {
            assert(m.subrange(1, m.len() as int) =~= views(parts@).subrange(
                from + 1,
                parts@.len() as int,
            ));
        }
        if str_eq(parts[from].as_str(), p) {
            rest
        } else {
            let mut r = rest;
            r.insert(0, parts[from].clone());
            assert(views(r@) =~= seq![m[0]] + spec_remove_pkg(m.subrange(1, m.len() as int), p@));
            r
        }
    }
}

/// Get the trusted packages, in stored order.
pub fn get_trusted(cfg: &ConfigStore) -> (r: Vec<String>)
    ensures
        views(r@) == spec_trusted(cfg@),
{
    match cfg.get_config_value("trusted") {
        None => {
            let r: Vec<String> = Vec::new();
            assert(views(r@) =~= spec_trusted(cfg@));
            r
        },
        Some(v) => {
            let parts = split_char(v.as_str(), ',');
            proof {
                assert(views(parts@) =~= spec_split(v@, ','));
                assert(views(parts@).subrange(0, parts@.len() as int) =~= views(parts@));
            }
            keep_nonempty_from(&parts, 0)
        },
    }
}

/// Whether a package name is in the trust set.
pub fn is_trusted(cfg: &ConfigStore, package: &str) -> (r: bool)
    ensures
        r == spec_trusted(cfg@).contains(package@),
{
    let ghost ts = spec_trusted(cfg@);
    let t = get_trusted(cfg);
    let n = t.len();
    let mut i: usize = 0;
    while i < n
        invariant
            i <= n,
            n == t@.len(),
            ts == spec_trusted(cfg@),
            views(t@) == ts,
            forall|j: int| 0 <= j < i ==> ts[j] != package@,
        decreases n - i,
    {
        if str_eq(t[i].as_str(), package) {
            proof {
                assert(ts.len() == t@.len());
                assert(views(t@)[i as int] == t@[i as int]@);
                assert(spec_trusted(cfg@)[i as int] == package@);
                assert(spec_trusted(cfg@).contains(package@));
            }
            return true;
        }
        i += 1;
    }
    assert(!ts.contains(package@));
    false
}

/// Add a package to the trust set; a name already present is left alone.
/// A name must be non-empty and comma-free, the only names the stored
/// comma-joined form can carry.
pub fn add_trusted(cfg: &mut ConfigStore, package: &str)
    requires
        package@.len() > 0,
        !package@.contains(','),
    ensures
        spec_trusted(old(cfg)@).contains(package@) ==> final(cfg)@ == old(cfg)@,
        !spec_trusted(old(cfg)@).contains(package@) ==> spec_trusted(final(cfg)@) == spec_trusted(
            old(cfg)@,
        ).push(package@),
        forall|k2: Seq<char>|
            k2 != "trusted"@ ==> #[trigger] lookup(final(cfg)@, k2) == lookup(old(cfg)@, k2),
{
    let ghost t0 = spec_trusted(cfg@);
    if is_trusted(cfg, package) {
        return ;
    }
    let mut t = get_trusted(cfg);
    t.push(String::from_str(package));
    let joined = join_str(&t, ",");
    proof {
        reveal_strlit(",");
        assert(","@ =~= seq![',']);
        lemma_trusted_pieces(cfg@);
        assert forall|j: int| 0 <= j < package@.len() implies package@[j] != ',' by {
            if package@[j] == ',' {
                assert(package@.contains(','));
            }
        }
        assert forall|i: int, j: int|
            0 <= i < views(t@).len() && 0 <= j < views(t@)[i].len() implies #[trigger] views(
            t@,
        )[i][j] != ',' by {
            if i < t0.len() {
                assert(views(t@)[i] == t0[i]);
            } else {
                assert(views(t@)[i] == package@);
            }
        }
        lemma_split_join(views(t@), ',');
        assert forall|i: int| 0 <= i < views(t@).len() implies (#[trigger] views(t@)[i]).len()
            > 0 by {
            if i < t0.len() {
                assert(views(t@)[i] == t0[i]);
            } else {
                assert(views(t@)[i] == package@);
            }
        }
        lemma_nonempty_pieces_id(views(t@));
    }
    cfg.set_config_value("trusted", joined.as_str());
    proof {
        assert(spec_trusted(cfg@) == views(t@));
        assert(views(t@) =~= t0.push(package@));
    }
}

/// Remove a package from the trust set; every occurrence is dropped and a
/// name that was never trusted leaves the set as it was.
pub fn remove_trusted(cfg: &mut ConfigStore, package: &str)
    ensures
        spec_trusted(final(cfg)@) == spec_remove_pkg(spec_trusted(old(cfg)@), package@),
        forall|k2: Seq<char>|
            k2 != "trusted"@ ==> #[trigger] lookup(final(cfg)@, k2) == lookup(old(cfg)@, k2),
{
    let ghost t0 = spec_trusted(cfg@);
    let t = get_trusted(cfg);
    let kept = remove_pkg_from(&t, 0, package);
    proof {
        assert(views(t@).subrange(0, t@.len() as int) =~= views(t@));
        reveal_strlit(",");
        assert(","@ =~= seq![',']);
        lemma_trusted_pieces(cfg@);
        assert forall|i: int| 0 <= i < views(kept@).len() implies (#[trigger] views(kept@)[i]).len()
            > 0 by {
            lemma_remove_pkg_within(t0, package@, i);
            let w = choose|w: int| 0 <= w < t0.len() && t0[w] == views(kept@)[i];
            assert(t0[w].len() > 0);
        }
        assert forall|i: int, j: int|
            0 <= i < views(kept@).len() && 0 <= j < views(kept@)[i].len() implies #[trigger] views(
            kept@,
        )[i][j] != ',' by {
            lemma_remove_pkg_within(t0, package@, i);
            let w = choose|w: int| 0 <= w < t0.len() && t0[w] == views(kept@)[i];
            assert(t0[w][j] != ',');
        }
    }
    let joined = join_str(&kept, ",");
    cfg.set_config_value("trusted", joined.as_str());
    if kept.len() == 0 {
        proof {
            assert(lookup(cfg@, "trusted"@) == Some(joined@));
            assert(joined@ =~= Seq::<char>::empty());
            crate::strutil::lemma_find_absent(joined@, ',');
            let pieces = spec_split(joined@, ',');
            assert(pieces =~= seq![joined@]);
            assert(pieces[0].len() == 0);
            assert(pieces.subrange(1, 1) =~= Seq::<Seq<char>>::empty());
            assert(nonempty_pieces(pieces) == nonempty_pieces(pieces.subrange(1, 1)));
            assert(nonempty_pieces(pieces.subrange(1, 1)) =~= Seq::<Seq<char>>::empty());
            assert(spec_trusted(cfg@) =~= views(kept@));
        }
    } else {
        proof {
            lemma_split_join(views(kept@), ',');
            lemma_nonempty_pieces_id(views(kept@));
            assert(spec_trusted(cfg@) == views(kept@));
        }
    }
}

/// What a trust command reported.
#[derive(Clone, Copy, Debug, PartialEq, Eq, Structural)]
pub enum TrustOutcome {
    /// The name was added to the set.
    Added,
    /// The name was already in the set; nothing changed.
    AlreadyTrusted,
    /// The name was removed from the set.
    Removed,
    /// The name was not in the set; nothing changed.
    NotTrusted,
}

/// Add a package to the trust set and say what happened.
pub fn add(cfg: &mut ConfigStore, package: &str) -> (r: TrustOutcome)
    requires
        package@.len() > 0,
        !package@.contains(','),
    ensures
        (r == TrustOutcome::AlreadyTrusted) == spec_trusted(old(cfg)@).contains(package@),
        r == TrustOutcome::AlreadyTrusted ==> final(cfg)@ == old(cfg)@,
        r == TrustOutcome::Added ==> spec_trusted(final(cfg)@) == spec_trusted(old(cfg)@).push(
            package@,
        ),
        r == TrustOutcome::Added || r == TrustOutcome::AlreadyTrusted,
        forall|k2: Seq<char>|
            k2 != "trusted"@ ==> #[trigger] lookup(final(cfg)@, k2) == lookup(old(cfg)@, k2),
{
    if is_trusted(cfg, package) {
        TrustOutcome::AlreadyTrusted
    } else {
        add_trusted(cfg, package);
        TrustOutcome::Added
    }
}

/// Remove a package from the trust set and say what happened.
pub fn remove(cfg: &mut ConfigStore, package: &str) -> (r: TrustOutcome)
    ensures
        (r == TrustOutcome::Removed) == spec_trusted(old(cfg)@).contains(package@),
        r == TrustOutcome::NotTrusted ==> final(cfg)@ == old(cfg)@,
        r == TrustOutcome::Removed ==> spec_trusted(final(cfg)@) == spec_remove_pkg(
            spec_trusted(old(cfg)@),
            package@,
        ),
        r == TrustOutcome::Removed || r == TrustOutcome::NotTrusted,
        forall|k2: Seq<char>|
            k2 != "trusted"@ ==> #[trigger] lookup(final(cfg)@, k2) == lookup(old(cfg)@, k2),
{
    if is_trusted(cfg, package) {
        remove_trusted(cfg, package);
        TrustOutcome::Removed
    } else {
        TrustOutcome::NotTrusted
    }
}

/// Every piece `spec_remove_pkg` keeps is one of the input pieces.
proof fn lemma_remove_pkg_within(t: Seq<Seq<char>>, p: Seq<char>, i: int)
    requires
        0 <= i < spec_remove_pkg(t, p).len(),
    ensures
        t.contains(spec_remove_pkg(t, p)[i]),
    decreases t.len(),
{
    let out = spec_remove_pkg(t, p);
    let rest = t.subrange(1, t.len() as int);
    if t.len() == 0 {
    } else if t[0] == p {
        lemma_remove_pkg_within(rest, p, i);
        let w = choose|w: int| 0 <= w < rest.len() && rest[w] == spec_remove_pkg(rest, p)[i];
        assert(t[w + 1] == out[i]);
    } else {
        if i == 0 {
            assert(t[0] == out[0]);
        } else {
            lemma_remove_pkg_within(rest, p, i - 1);
            let w = choose|w: int| 0 <= w < rest.len() && rest[w] == spec_remove_pkg(rest, p)[i - 1];
            assert(t[w + 1] == out[i]);
        }
    }
}

} // verus!
