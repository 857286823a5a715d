//! Character-level string utilities with exact contracts.
//!
//! The standard library's `&str` helpers (`contains`, `trim`, `split`) carry
//! no specifications, so the few the library needs are written here over
//! `Seq<char>` views, together with the lemmas that relate splitting and
//! joining.

use vstd::prelude::*;
use vstd::string::StrSliceExecFns;
use vstd::string::StringExecFns;

verus! {

/// The whitespace characters stripped from config keys and values.
pub open spec fn is_space_char(c: char) -> bool {
    c == ' ' || c == '\t' || c == '\r' || c == '\n'
}

/// Index of the first occurrence of `c` in `s`, if any.
pub open spec fn spec_find(s: Seq<char>, c: char) -> Option<int>
    decreases s.len(),
{
    if s.len() == 0 {
        None
    } else if s[0] == c {
        Some(0)
    } else {
        match spec_find(s.subrange(1, s.len() as int), c) {
            Some(i) => Some(i + 1),
            None => None,
        }
    }
}

/// What `spec_find` returns is the first occurrence.
pub proof fn lemma_find_characterization(s: Seq<char>, c: char)
    ensures
        match spec_find(s, c) {
            Some(i) => 0 <= i < s.len() && s[i] == c && forall|j: int| 0 <= j < i ==> s[j] != c,
            None => forall|j: int| 0 <= j < s.len() ==> s[j] != c,
        },
    decreases s.len(),
{
    if s.len() == 0 {
    } else if s[0] == c {
    } else {
        let t = s.subrange(1, s.len() as int);
        lemma_find_characterization(t, c);
        match spec_find(t, c) {
            Some(i) => {
                assert(s[i + 1] == t[i]);
                assert forall|j: int| 0 <= j < i + 1 implies s[j] != c by {
                    if j >= 1 {
                        assert(s[j] == t[j - 1]);
                    }
                }
            },
            None => {
                assert forall|j: int| 0 <= j < s.len() implies s[j] != c by {
                    if j >= 1 {
                        assert(s[j] == t[j - 1]);
                    }
                }
            },
        }
    }
}

/// A position with `c` and none before it is the one `spec_find` returns.
pub proof fn lemma_find_at(s: Seq<char>, c: char, i: int)
    requires
        0 <= i < s.len(),
        s[i] == c,
        forall|j: int| 0 <= j < i ==> s[j] != c,
    ensures
        spec_find(s, c) == Some(i),
    decreases s.len(),
{
    if i == 0 {
    } else {
        let t = s.subrange(1, s.len() as int);
        lemma_find_at(t, c, i - 1);
    }
}

/// Absence of `c` everywhere means `spec_find` returns `None`.
pub proof fn lemma_find_absent(s: Seq<char>, c: char)
    requires
        forall|j: int| 0 <= j < s.len() ==> s[j] != c,
    ensures
        spec_find(s, c) == None::<int>,
    decreases s.len(),
{
    if s.len() == 0 {
    } else {
        lemma_find_absent(s.subrange(1, s.len() as int), c);
    }
}

/// First occurrence of `c` in `s`, scanning left to right.
pub fn find_char(s: &str, c: char) -> (r: Option<usize>)
    ensures
        match r {
            Some(i) => spec_find(s@, c) == Some(i as int),
            None => spec_find(s@, c) == None::<int>,
        },
{
    let len = s.unicode_len();
    let mut i: usize = 0;
    while i < len
        invariant
            i <= len,
            len == s@.len(),
            forall|j: int| 0 <= j < i ==> s@[j] != c,
        decreases len - i,
    {
        if s.get_char(i) == c {
            proof {
                lemma_find_at(s@, c, i as int);
            }
            return Some(i);
        }
        i += 1;
    }
    proof {
        lemma_find_absent(s@, c);
    }
    None
}

/// Compare two string slices character by character.
pub fn str_eq(a: &str, b: &str) -> (r: bool)
    ensures
        r == (a@ == b@),
{
    let alen = a.unicode_len();
    let blen = b.unicode_len();
    if alen != blen {
        assert(a@ != b@) by {
            assert(a@.len() != b@.len());
        }
        return false;
    }
    let mut i: usize = 0;
    while i < alen
        invariant
            alen == a@.len(),
            blen == b@.len(),
            alen == blen,
            i <= alen,
            forall|j: int| 0 <= j < i ==> a@[j] == b@[j],
        decreases alen - i,
    {
        if a.get_char(i) != b.get_char(i) {
            return false;
        }
        i += 1;
    }
    assert(a@ =~= b@);
    true
}

/// `s` with leading and trailing whitespace removed.
pub open spec fn spec_trim(s: Seq<char>) -> Seq<char>
    decreases s.len(),
{
    if s.len() == 0 {
        s
    } else if is_space_char(s[0]) {
        spec_trim(s.subrange(1, s.len() as int))
    } else if is_space_char(s[s.len() - 1]) {
        spec_trim(s.subrange(0, s.len() - 1))
    } else {
        s
    }
}

/// A range whose outside is all whitespace and whose ends are not
/// is exactly what `spec_trim` keeps.
pub proof fn lemma_trim_range(s: Seq<char>, i: int, j: int)
    requires
        0 <= i <= j <= s.len(),
        forall|k: int| 0 <= k < i ==> is_space_char(s[k]),
        forall|k: int| j <= k < s.len() ==> is_space_char(s[k]),
        i < j ==> !is_space_char(s[i]) && !is_space_char(s[j - 1]),
    ensures
        spec_trim(s) == s.subrange(i, j),
    decreases s.len(),
{
    if s.len() == 0 {
        assert(s.subrange(i, j) =~= s);
    } else if is_space_char(s[0]) {
        let t = s.subrange(1, s.len() as int);
        if i < j {
            lemma_trim_range(t, i - 1, j - 1);
            assert(t.subrange(i - 1, j - 1) =~= s.subrange(i, j));
        } else {
            lemma_trim_range(t, 0, 0);
            assert(t.subrange(0, 0) =~= s.subrange(i, j));
        }
    } else if is_space_char(s[s.len() - 1]) {
        let t = s.subrange(0, s.len() - 1);
        assert(i < j);
        assert(j < s.len());
        lemma_trim_range(t, i, j);
        assert(t.subrange(i, j) =~= s.subrange(i, j));
    } else {
        assert(i == 0 && j == s.len());
        assert(s.subrange(i, j) =~= s);
    }
}

/// Strip leading and trailing whitespace.
pub fn trim<'a>(s: &'a str) -> (r: &'a str)
    ensures
        r@ == spec_trim(s@),
{
    let len = s.unicode_len();
    let mut start: usize = 0;
    while start < len && is_space(s.get_char(start))
        invariant
            start <= len,
            len == s@.len(),
            forall|k: int| 0 <= k < start ==> is_space_char(s@[k]),
        decreases len - start,
    {
        start += 1;
    }
    let mut end: usize = len;
    while end > start && is_space(s.get_char(end - 1))
        invariant
            start <= end <= len,
            len == s@.len(),
            forall|k: int| end <= k < len ==> is_space_char(s@[k]),
            start < end ==> !is_space_char(s@[start as int]),
        decreases end,
    {
        end -= 1;
    }
    proof {
        lemma_trim_range(s@, start as int, end as int);
    }
    s.substring_char(start, end)
}

/// Executable mirror of `is_space_char`.
pub fn is_space(c: char) -> (r: bool)
    ensures
        r == is_space_char(c),
{
    c == ' ' || c == '\t' || c == '\r' || c == '\n'
}

/// `s` cut at every occurrence of `c`; the separators themselves are dropped.
/// An input without `c` yields one piece, so the result is never empty.
pub open spec fn spec_split(s: Seq<char>, c: char) -> Seq<Seq<char>>
    decreases s.len(),
    via spec_split_decreases
{
    match spec_find(s, c) {
        None => seq![s],
        Some(i) => seq![s.subrange(0, i)] + spec_split(s.subrange(i + 1, s.len() as int), c),
    }
}

#[via_fn]
proof fn spec_split_decreases(s: Seq<char>, c: char) {
    lemma_find_characterization(s, c);
}

/// Split `s` at every occurrence of `c`.
pub fn split_char(s: &str, c: char) -> (r: Vec<String>)
    ensures
        r@.len() == spec_split(s@, c).len(),
        forall|i: int| 0 <= i < r@.len() ==> r@[i]@ == spec_split(s@, c)[i],
    decreases s@.len(),
{
    proof {
        lemma_find_characterization(s@, c);
    }
    match find_char(s, c) {
        None => {
            let mut v: Vec<String> = Vec::new();
            v.push(String::from_str(s));
            v
        },
        Some(i) => {
            let len = s.unicode_len();
            let head = s.substring_char(0, i);
            let tail = s.substring_char(i + 1, len);
            let mut v = split_char(tail, c);
            v.insert(0, String::from_str(head));
            v
        },
    }
}

/// The pieces interleaved with the separator `sep`.
pub open spec fn spec_join(parts: Seq<Seq<char>>, sep: Seq<char>) -> Seq<char>
    decreases parts.len(),
{
    if parts.len() == 0 {
        Seq::empty()
    } else if parts.len() == 1 {
        parts[0]
    } else {
        parts[0] + sep + spec_join(parts.subrange(1, parts.len() as int), sep)
    }
}

/// The views of a sequence of strings.
pub open spec fn views(v: Seq<String>) -> Seq<Seq<char>> {
    v.map_values(|s: String| s@)
}

/// Join the strings from index `from` on, separated by `sep`.
fn join_from(parts: &Vec<String>, from: usize, sep: &str) -> (r: String)
    requires
        from <= parts@.len(),
    ensures
        r@ == spec_join(views(parts@).subrange(from as int, parts@.len() as int), sep@),
    decreases parts@.len() - from,
{
    let n = parts.len();
    if from == n {
        String::new()
    } else if from + 1 == n {
        assert(views(parts@).subrange(from as int, n as int) =~= seq![parts@[from as int]@]);
        parts[from].clone()
    } else {
        let mut out = parts[from].clone();
        out.append(sep);
        let rest = join_from(parts, from + 1, sep);
        out.append(rest.as_str());
        proof {
            let vs = views(parts@).subrange(from as int, n as int);
            assert(vs.subrange(1, vs.len() as int) =~= views(parts@).subrange(
                from + 1,
                n as int,
            ));
        }
        out
    }
}

/// Join the strings with the separator `sep`.
pub fn join_str(parts: &Vec<String>, sep: &str) -> (r: String)
    ensures
        r@ == spec_join(views(parts@), sep@),
{
    let r = join_from(parts, 0, sep);
    proof {
        assert(views(parts@).subrange(0, parts@.len() as int) =~= views(parts@));
    }
    r
}

/// Finding `c` in `a + [c] + b` stops at the end of `a` when `a` avoids `c`.
pub proof fn lemma_find_concat(a: Seq<char>, c: char, b: Seq<char>)
    requires
        forall|j: int| 0 <= j < a.len() ==> a[j] != c,
    ensures
        spec_find(a + seq![c] + b, c) == Some(a.len() as int),
{
    let s = a + seq![c] + b;
    assert(s[a.len() as int] == c);
    assert(forall|j: int| 0 <= j < a.len() ==> s[j] == a[j] && s[j] != c);
    lemma_find_at(s, c, a.len() as int);
}

/// Splitting what `spec_join` built recovers the pieces, provided the
/// separator occurs in none of them and there is at least one piece.
pub proof fn lemma_split_join(parts: Seq<Seq<char>>, c: char)
    requires
        parts.len() >= 1,
        forall|i: int, j: int|
            0 <= i < parts.len() && 0 <= j < parts[i].len() ==> #[trigger] parts[i][j] != c,
    ensures
        spec_split(spec_join(parts, seq![c]), c) == parts,
    decreases parts.len(),
{
    let joined = spec_join(parts, seq![c]);
    if parts.len() == 1 {
        assert(forall|j: int| 0 <= j < joined.len() ==> joined[j] != c);
        lemma_find_absent(joined, c);
        assert(spec_split(joined, c) =~= parts);
    } else {
        let head = parts[0];
        let rest = parts.subrange(1, parts.len() as int);
        let tail = spec_join(rest, seq![c]);
        assert(joined =~= head + seq![c] + tail);
        lemma_find_concat(head, c, tail);
        assert(joined.subrange(0, head.len() as int) =~= head);
        assert(joined.subrange(head.len() as int + 1, joined.len() as int) =~= tail);
        lemma_split_join(rest, c);
        assert(spec_split(joined, c) =~= seq![head] + rest);
        assert(seq![head] + rest =~= parts);
    }
}

/// `p` occurs contiguously somewhere in `s`.
pub open spec fn spec_contains(s: Seq<char>, p: Seq<char>) -> bool {
    exists|i: int| 0 <= i <= s.len() - p.len() && #[trigger] s.subrange(i, i + p.len()) == p
}

/// Whether `pat` occurs as a substring of `s`.
pub fn contains_sub(s: &str, pat: &str) -> (r: bool)
    ensures
        r == spec_contains(s@, pat@),
{
    let slen = s.unicode_len();
    let plen = pat.unicode_len();
    if plen > slen {
        assert(!spec_contains(s@, pat@));
        return false;
    }
    if plen == 0 {
        assert(spec_contains(s@, pat@)) by {
            assert(s@.subrange(0, 0 + pat@.len() as int) =~= pat@);
        }
        return true;
    }
    let mut i: usize = 0;
    while i <= slen - plen
        invariant
            0 < plen <= slen,
            slen == s@.len(),
            plen == pat@.len(),
            i <= slen - plen + 1,
            forall|k: int| 0 <= k < i ==> #[trigger] s@.subrange(k, k + plen) != pat@,
        decreases slen - i,
    {
        let w = s.substring_char(i, i + plen);
        if str_eq(w, pat) {
            assert(s@.subrange(i as int, i + plen) == pat@);
            return true;
        }
        i += 1;
    }
    assert(forall|k: int| 0 <= k <= slen - plen ==> #[trigger] s@.subrange(k, k + plen) != pat@);
    false
}

/// Whether `s` begins with the character `c`.
pub fn starts_with_char(s: &str, c: char) -> (r: bool)
    ensures
        r == (s@.len() > 0 && s@[0] == c),
{
    if s.unicode_len() == 0 {
        false
    } else {
        s.get_char(0) == c
    }
}

/// The string an optional value holds, or the default.
pub open spec fn opt_str_or(o: Option<String>, d: Seq<char>) -> Seq<char> {
    match o {
        Some(s) => s@,
        None => d,
    }
}

/// Relies on String::push, which vstd leaves unspecified: appends exactly
/// the one character.
#[verifier::external_body]
pub(crate) fn push_char(s: &mut String, c: char)
    ensures
        final(s)@ == old(s)@.push(c),
{
    s.push(c);
}

/// The decimal digit characters.
pub open spec fn spec_digit(d: int) -> char {
    if d == 0 {
        '0'
    } else if d == 1 {
        '1'
    } else if d == 2 {
        '2'
    } else if d == 3 {
        '3'
    } else if d == 4 {
        '4'
    } else if d == 5 {
        '5'
    } else if d == 6 {
        '6'
    } else if d == 7 {
        '7'
    } else if d == 8 {
        '8'
    } else {
        '9'
    }
}

/// The decimal rendering of a non-negative number, most significant digit
/// first, no leading zeros.
pub open spec fn spec_dec(n: int) -> Seq<char>
    recommends
        n >= 0,
    decreases n,
{
    if n < 10 {
        seq![spec_digit(n)]
    } else {
        spec_dec(n / 10) + seq![spec_digit(n % 10)]
    }
}

/// The decimal rendering of a signed number.
pub open spec fn spec_idec(n: int) -> Seq<char> {
    if n < 0 {
        seq!['-'] + spec_dec(-n)
    } else {
        spec_dec(n)
    }
}

/// One decimal digit as a character.
fn digit_char(d: u32) -> (r: char)
    requires
        d < 10,
    ensures
        r == spec_digit(d as int),
{
    if d == 0 {
        '0'
    } else if d == 1 {
        '1'
    } else if d == 2 {
        '2'
    } else if d == 3 {
        '3'
    } else if d == 4 {
        '4'
    } else if d == 5 {
        '5'
    } else if d == 6 {
        '6'
    } else if d == 7 {
        '7'
    } else if d == 8 {
        '8'
    } else {
        '9'
    }
}

/// Render an unsigned number in decimal.
pub fn u32_dec_string(n: u32) -> (r: String)
    ensures
        r@ == spec_dec(n as int),
    decreases n,
{
    if n < 10 {
        let mut s = String::new();
        push_char(&mut s, digit_char(n));
        assert(s@ =~= spec_dec(n as int));
        s
    } else {
        let mut s = u32_dec_string(n / 10);
        push_char(&mut s, digit_char(n % 10));
        assert(s@ =~= spec_dec(n as int / 10) + seq![spec_digit(n as int % 10)]);
        s
    }
}

/// Render a signed number in decimal.
pub fn i32_dec_string(n: i32) -> (r: String)
    ensures
        r@ == spec_idec(n as int),
{
    if n >= 0 {
        u32_dec_string(n as u32)
    } else {
        let wide: i64 = n as i64;
        let mag: u32 = (-wide) as u32;
        let mut s = String::new();
        push_char(&mut s, '-');
        let digits = u32_dec_string(mag);
        s.append(digits.as_str());
        assert(s@ =~= seq!['-'] + spec_dec(-(n as int)));
        s
    }
}

} // verus!
