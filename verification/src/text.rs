//! Character-level string operations with specifications over `Seq<char>`.
//!
//! Every string in the library is reasoned about through its view, the
//! sequence of its Unicode scalar values.  The few std calls that move
//! between `str`, `String` and `Vec<char>` are the only trusted items here.
use vstd::prelude::*;

verus! {

// ------------------------------------------------------------------
// Conversions (trusted std calls)
// ------------------------------------------------------------------

/// Calls `str::chars` and collects the characters; the result holds exactly
/// the characters of `s`, in order.
#[verifier::external_body]
pub(crate) fn chars_of(s: &str) -> (v: Vec<char>)
    ensures
        v@ == s@,
{
    s.chars().collect()
}

/// Collects a slice of characters into a `String` through
/// `FromIterator<&char> for String`; the result holds exactly those characters.
#[verifier::external_body]
pub(crate) fn string_of(v: &[char]) -> (s: String)
    ensures
        s@ == v@,
{
    v.iter().collect()
}

// ------------------------------------------------------------------
// Character classes
// ------------------------------------------------------------------

/// The Unicode `White_Space` property, which `char::is_whitespace` tests.
pub open spec fn is_ws(c: char) -> bool {
    c == ' ' || ('\t' <= c && c <= '\r') || c == '\u{85}' || c == '\u{a0}' || c == '\u{1680}'
        || ('\u{2000}' <= c && c <= '\u{200a}') || c == '\u{2028}' || c == '\u{2029}' || c
        == '\u{202f}' || c == '\u{205f}' || c == '\u{3000}'
}

pub fn is_whitespace(c: char) -> (r: bool)
    ensures
        r == is_ws(c),
{
    c == ' ' || ('\t' <= c && c <= '\r') || c == '\u{85}' || c == '\u{a0}' || c == '\u{1680}'
        || ('\u{2000}' <= c && c <= '\u{200a}') || c == '\u{2028}' || c == '\u{2029}' || c
        == '\u{202f}' || c == '\u{205f}' || c == '\u{3000}'
}

/// ASCII punctuation as `char::is_ascii_punctuation` defines it.
pub open spec fn is_ascii_punct(c: char) -> bool {
    ('!' <= c && c <= '/') || (':' <= c && c <= '@') || ('[' <= c && c <= '`') || ('{' <= c
        && c <= '~')
}

pub fn is_ascii_punctuation(c: char) -> (r: bool)
    ensures
        r == is_ascii_punct(c),
{
    ('!' <= c && c <= '/') || (':' <= c && c <= '@') || ('[' <= c && c <= '`') || ('{' <= c
        && c <= '~')
}

/// ASCII letters and digits, as `char::is_ascii_alphanumeric` defines them.
pub open spec fn is_ascii_alnum(c: char) -> bool {
    ('0' <= c && c <= '9') || ('a' <= c && c <= 'z') || ('A' <= c && c <= 'Z')
}

pub fn is_ascii_alphanumeric(c: char) -> (r: bool)
    ensures
        r == is_ascii_alnum(c),
{
    ('0' <= c && c <= '9') || ('a' <= c && c <= 'z') || ('A' <= c && c <= 'Z')
}

/// `char::to_ascii_lowercase`: ASCII capitals move to lower case, all else stays.
pub open spec fn lower_char(c: char) -> char {
    if 'A' <= c && c <= 'Z' {
        ((c as u32) + 32) as char
    } else {
        c
    }
}

pub fn to_ascii_lower_char(c: char) -> (r: char)
    ensures
        r == lower_char(c),
{
    if 'A' <= c && c <= 'Z' {
        let b: u8 = c as u8;
        (b + 32) as char
    } else {
        c
    }
}

pub open spec fn lower_seq(s: Seq<char>) -> Seq<char> {
    s.map_values(|c: char| lower_char(c))
}

// ------------------------------------------------------------------
// Substrings
// ------------------------------------------------------------------

/// `n` occurs in `h` starting at index `i`.
pub open spec fn occurs_at(h: Seq<char>, n: Seq<char>, i: int) -> bool {
    0 <= i && i + n.len() <= h.len() && h.subrange(i, i + n.len()) == n
}

/// `n` occurs somewhere in `h` (the empty sequence occurs everywhere).
pub open spec fn has_sub(h: Seq<char>, n: Seq<char>) -> bool {
    exists|i: int| #[trigger] occurs_at(h, n, i)
}

pub open spec fn has_prefix(s: Seq<char>, p: Seq<char>) -> bool {
    occurs_at(s, p, 0)
}

pub fn occurs_at_exec(h: &Vec<char>, n: &Vec<char>, i: usize) -> (r: bool)
    ensures
        r == occurs_at(h@, n@, i as int),
{
    if n.len() > h.len() || i > h.len() - n.len() {
        return false;
    }
    let mut j: usize = 0;
    while j < n.len()
        invariant
            j <= n.len(),
            i + n.len() <= h.len(),
            forall|k: int| 0 <= k < j ==> h@[i + k] == n@[k],
        decreases n.len() - j,
    {
        if h[i + j] != n[j] {
            assert(h@.subrange(i as int, i + n.len())[j as int] != n@[j as int]);
            return false;
        }
        j += 1;
    }
    assert(h@.subrange(i as int, i + n.len()) =~= n@);
    true
}

pub fn vec_has_sub(h: &Vec<char>, n: &Vec<char>) -> (r: bool)
    ensures
        r == has_sub(h@, n@),
{
    if n.len() > h.len() {
        assert forall|k: int| !#[trigger] occurs_at(h@, n@, k) by {}
        return false;
    }
    let lim = h.len() - n.len();
    let mut i: usize = 0;
    while i < lim
        invariant
            n.len() <= h.len(),
            lim == h.len() - n.len(),
            i <= lim,
            forall|k: int| 0 <= k < i ==> !#[trigger] occurs_at(h@, n@, k),
        decreases lim - i,
    {
        if occurs_at_exec(h, n, i) {
            return true;
        }
        i += 1;
    }
    if occurs_at_exec(h, n, lim) {
        return true;
    }
    assert forall|k: int| !#[trigger] occurs_at(h@, n@, k) by {
        if 0 <= k && k + n.len() <= h.len() && k != lim {
            assert(k < i);
        }
    }
    false
}

/// `str::contains` with a string pattern.
pub fn contains(h: &str, n: &str) -> (r: bool)
    ensures
        r == has_sub(h@, n@),
{
    let hv = chars_of(h);
    let nv = chars_of(n);
    vec_has_sub(&hv, &nv)
}

/// `str::starts_with` with a string pattern.
pub fn starts_with(s: &str, p: &str) -> (r: bool)
    ensures
        r == has_prefix(s@, p@),
{
    let sv = chars_of(s);
    let pv = chars_of(p);
    occurs_at_exec(&sv, &pv, 0)
}

/// `p` ends `s`.
pub open spec fn has_suffix(s: Seq<char>, p: Seq<char>) -> bool {
    p.len() <= s.len() && occurs_at(s, p, s.len() - p.len())
}

/// `str::ends_with` with a string pattern.
pub fn ends_with(s: &str, p: &str) -> (r: bool)
    ensures
        r == has_suffix(s@, p@),
{
    let sv = chars_of(s);
    let pv = chars_of(p);
    if pv.len() > sv.len() {
        return false;
    }
    occurs_at_exec(&sv, &pv, sv.len() - pv.len())
}

/// `str::trim_end_matches` with a string pattern: every trailing repetition
/// of a non-empty `p` removed.
pub open spec fn trim_end_pat(s: Seq<char>, p: Seq<char>) -> Seq<char>
    decreases s.len(),
{
    if p.len() > 0 && has_suffix(s, p) {
        trim_end_pat(s.take(s.len() - p.len()), p)
    } else {
        s
    }
}

pub fn trim_end_matches(s: &str, p: &str) -> (r: String)
    ensures
        r@ == trim_end_pat(s@, p@),
{
    let v = chars_of(s);
    let pv = chars_of(p);
    let mut b: usize = v.len();
    assert(v@.take(b as int) =~= v@);
    while pv.len() > 0 && b >= pv.len() && occurs_at_exec(&v, &pv, b - pv.len())
        invariant
            b <= v@.len(),
            trim_end_pat(v@, pv@) == trim_end_pat(v@.take(b as int), pv@),
        decreases b,
    {
        let ghost t = v@.take(b as int);
        assert(t.subrange(t.len() - pv@.len(), t.len() as int) =~= v@.subrange(
            b - pv@.len(),
            b as int,
        ));
        assert(t.take(t.len() - pv@.len()) =~= v@.take(b - pv@.len()));
        b = b - pv.len();
    }
    proof {
        let t = v@.take(b as int);
        if pv@.len() > 0 && b >= pv@.len() {
            assert(t.subrange(t.len() - pv@.len(), t.len() as int) =~= v@.subrange(
                b - pv@.len(),
                b as int,
            ));
        }
    }
    let t = sub_vec(&v, 0, b);
    assert(v@.subrange(0, b as int) =~= v@.take(b as int));
    string_of(t.as_slice())
}

/// The characters of `s` before the first `c` (all of `s` when it has none).
pub open spec fn prefix_before(s: Seq<char>, c: char) -> Seq<char>
    decreases s.len(),
{
    if s.len() == 0 || s[0] == c {
        seq![]
    } else {
        seq![s[0]] + prefix_before(s.drop_first(), c)
    }
}

/// `prefix_before` is the part before the first occurrence, found or not.
pub proof fn lemma_prefix_before(s: Seq<char>, c: char, i: int)
    requires
        0 <= i <= s.len(),
        forall|k: int| 0 <= k < i ==> s[k] != c,
        i == s.len() || s[i] == c,
    ensures
        prefix_before(s, c) == s.take(i),
    decreases i,
{
    if i > 0 {
        lemma_prefix_before(s.drop_first(), c, i - 1);
        assert(seq![s[0]] + s.drop_first().take(i - 1) =~= s.take(i));
    } else {
        assert(s.take(0) =~= Seq::<char>::empty());
    }
}

/// `str::split_once` at a character: the text before its first occurrence
/// and the text after it.
pub fn split_once_char(s: &str, c: char) -> (r: Option<(String, String)>)
    ensures
        r is Some <==> s@.contains(c),
        r matches Some(p) ==> p.0@ == prefix_before(s@, c) && p.1@ == s@.skip(
            prefix_before(s@, c).len() + 1int,
        ),
{
    let v = chars_of(s);
    let n = v.len();
    let mut i: usize = 0;
    while i < n && v[i] != c
        invariant
            i <= n,
            n == v@.len(),
            forall|k: int| 0 <= k < i ==> v@[k] != c,
        decreases n - i,
    {
        i += 1;
    }
    proof {
        lemma_prefix_before(v@, c, i as int);
    }
    if i == n {
        assert(!v@.contains(c)) by {
            if v@.contains(c) {
                let k = choose|k: int| 0 <= k < v@.len() && v@[k] == c;
                assert(v@[k] != c);
            }
        }
        return None;
    }
    let a = sub_vec(&v, 0, i);
    let b = sub_vec(&v, i + 1, n);
    assert(v@.subrange(0, i as int) =~= v@.take(i as int));
    assert(v@.subrange(i + 1, n as int) =~= v@.skip(i + 1));
    assert(v@[i as int] == c);
    Some((string_of(a.as_slice()), string_of(b.as_slice())))
}

/// The first position at or after `i` where `n` occurs in `h`.
pub open spec fn first_occurrence(h: Seq<char>, n: Seq<char>, i: int) -> Option<int>
    decreases h.len() + 1 - i,
{
    if i < 0 || i + n.len() > h.len() {
        None
    } else if occurs_at(h, n, i) {
        Some(i)
    } else {
        first_occurrence(h, n, i + 1)
    }
}

/// `str::split_once` with a string pattern: the text before its first
/// occurrence and the text after it.
pub fn split_once_str(s: &str, pat: &str) -> (r: Option<(String, String)>)
    ensures
        match first_occurrence(s@, pat@, 0) {
            Some(i) => r matches Some(p) && p.0@ == s@.take(i) && p.1@ == s@.skip(i + pat@.len()),
            None => r is None,
        },
{
    let v = chars_of(s);
    let pv = chars_of(pat);
    if pv.len() > v.len() {
        return None;
    }
    let vlen = v.len();
    let plen = pv.len();
    let last = vlen - plen;
    let mut i: usize = 0;
    loop
        invariant
            v@ == s@,
            pv@ == pat@,
            vlen == v@.len(),
            plen == pv@.len(),
            last == v@.len() - pv@.len(),
            pv@.len() <= v@.len(),
            i <= last,
            first_occurrence(v@, pv@, 0) == first_occurrence(v@, pv@, i as int),
        decreases last - i,
    {
        if occurs_at_exec(&v, &pv, i) {
            assert(first_occurrence(v@, pv@, i as int) == Some(i as int));
            let a = sub_vec(&v, 0, i);
            let b = sub_vec(&v, i + plen, vlen);
            assert(v@.subrange(0, i as int) =~= v@.take(i as int));
            assert(v@.subrange(i + pv@.len(), v@.len() as int) =~= v@.skip(i + pv@.len()));
            return Some((string_of(a.as_slice()), string_of(b.as_slice())));
        }
        if i == last {
            assert(first_occurrence(v@, pv@, i + 1) is None);
            assert(first_occurrence(v@, pv@, i as int) == first_occurrence(v@, pv@, i + 1));
            return None;
        }
        assert(first_occurrence(v@, pv@, i as int) == first_occurrence(v@, pv@, i + 1));
        i += 1;
    }
}

/// `str::strip_prefix` with a string pattern.
pub fn strip_prefix(s: &str, p: &str) -> (r: Option<String>)
    ensures
        r is Some <==> has_prefix(s@, p@),
        r matches Some(t) ==> t@ == s@.skip(p@.len() as int),
{
    let v = chars_of(s);
    let pv = chars_of(p);
    if !occurs_at_exec(&v, &pv, 0) {
        return None;
    }
    let t = sub_vec(&v, pv.len(), v.len());
    assert(v@.subrange(pv@.len() as int, v@.len() as int) =~= v@.skip(pv@.len() as int));
    Some(string_of(t.as_slice()))
}

/// `str::strip_suffix` with a string pattern.
pub fn strip_suffix(s: &str, p: &str) -> (r: Option<String>)
    ensures
        r is Some <==> has_suffix(s@, p@),
        r matches Some(t) ==> t@ == s@.take(s@.len() - p@.len()),
{
    let v = chars_of(s);
    let pv = chars_of(p);
    if pv.len() > v.len() || !occurs_at_exec(&v, &pv, v.len() - pv.len()) {
        return None;
    }
    let t = sub_vec(&v, 0, v.len() - pv.len());
    assert(v@.subrange(0, v@.len() - pv@.len()) =~= v@.take(v@.len() - pv@.len()));
    Some(string_of(t.as_slice()))
}

/// Equality of the characters of two strings.
pub fn str_eq(a: &str, b: &str) -> (r: bool)
    ensures
        r == (a@ == b@),
{
    let av = chars_of(a);
    let bv = chars_of(b);
    if av.len() != bv.len() {
        return false;
    }
    let r = occurs_at_exec(&av, &bv, 0);
    assert(av@.subrange(0, bv@.len() as int) =~= av@);
    r
}

pub fn sub_vec(v: &Vec<char>, a: usize, b: usize) -> (r: Vec<char>)
    requires
        a <= b <= v.len(),
    ensures
        r@ == v@.subrange(a as int, b as int),
{
    let mut out: Vec<char> = Vec::new();
    let mut i = a;
    while i < b
        invariant
            a <= i <= b <= v.len(),
            out@ == v@.subrange(a as int, i as int),
        decreases b - i,
    {
        out.push(v[i]);
        i += 1;
        assert(out@ =~= v@.subrange(a as int, i as int));
    }
    out
}

// ------------------------------------------------------------------
// Case
// ------------------------------------------------------------------

pub fn lower_vec(v: &Vec<char>) -> (r: Vec<char>)
    ensures
        r@ == lower_seq(v@),
{
    let mut out: Vec<char> = Vec::new();
    let mut i: usize = 0;
    while i < v.len()
        invariant
            i <= v.len(),
            out.len() == i,
            forall|k: int| 0 <= k < i ==> out@[k] == lower_char(v@[k]),
        decreases v.len() - i,
    {
        let c = to_ascii_lower_char(v[i]);
        out.push(c);
        i += 1;
    }
    assert(out@ =~= lower_seq(v@));
    out
}

/// `str::to_ascii_lowercase`.
pub fn to_ascii_lowercase(s: &str) -> (r: String)
    ensures
        r@ == lower_seq(s@),
{
    let v = chars_of(s);
    let l = lower_vec(&v);
    string_of(l.as_slice())
}

/// `str::eq_ignore_ascii_case`.
pub fn eq_ignore_ascii_case(a: &str, b: &str) -> (r: bool)
    ensures
        r == (lower_seq(a@) == lower_seq(b@)),
{
    let la = to_ascii_lowercase(a);
    let lb = to_ascii_lowercase(b);
    str_eq(la.as_str(), lb.as_str())
}

// ------------------------------------------------------------------
// Trimming
// ------------------------------------------------------------------

pub open spec fn trim_start_seq(s: Seq<char>) -> Seq<char>
    decreases s.len(),
{
    if s.len() > 0 && is_ws(s[0]) {
        trim_start_seq(s.drop_first())
    } else {
        s
    }
}

pub open spec fn trim_end_seq(s: Seq<char>) -> Seq<char>
    decreases s.len(),
{
    if s.len() > 0 && is_ws(s.last()) {
        trim_end_seq(s.drop_last())
    } else {
        s
    }
}

/// `str::trim`: leading and trailing whitespace removed.
pub open spec fn trim_seq(s: Seq<char>) -> Seq<char> {
    trim_end_seq(trim_start_seq(s))
}

/// `trim_start_seq` drops a whitespace prefix and stops at a non-whitespace
/// character.
pub proof fn lemma_trim_start_shape(s: Seq<char>)
    ensures
        trim_start_seq(s).len() <= s.len(),
        trim_start_seq(s) == s.skip(s.len() - trim_start_seq(s).len()),
        forall|i: int| 0 <= i < s.len() - trim_start_seq(s).len() ==> is_ws(#[trigger] s[i]),
        trim_start_seq(s).len() > 0 ==> !is_ws(trim_start_seq(s)[0]),
    decreases s.len(),
{
    if s.len() > 0 && is_ws(s[0]) {
        lemma_trim_start_shape(s.drop_first());
        let r = trim_start_seq(s.drop_first());
        assert(s.drop_first().skip(s.drop_first().len() - r.len()) =~= s.skip(s.len() - r.len()));
        assert forall|i: int| 0 <= i < s.len() - r.len() implies is_ws(#[trigger] s[i]) by {
            if i > 0 {
                assert(s[i] == s.drop_first()[i - 1]);
            }
        }
    } else {
        assert(s.skip(0) =~= s);
    }
}

/// `trim_end_seq` drops a whitespace suffix and stops at a non-whitespace
/// character.
pub proof fn lemma_trim_end_shape(s: Seq<char>)
    ensures
        trim_end_seq(s).len() <= s.len(),
        trim_end_seq(s) == s.take(trim_end_seq(s).len() as int),
        forall|i: int| trim_end_seq(s).len() <= i < s.len() ==> is_ws(#[trigger] s[i]),
        trim_end_seq(s).len() > 0 ==> !is_ws(trim_end_seq(s).last()),
    decreases s.len(),
{
    if s.len() > 0 && is_ws(s.last()) {
        lemma_trim_end_shape(s.drop_last());
        let r = trim_end_seq(s.drop_last());
        assert(s.drop_last().take(r.len() as int) =~= s.take(r.len() as int));
        assert forall|i: int| r.len() <= i < s.len() implies is_ws(#[trigger] s[i]) by {
            if i < s.len() - 1 {
                assert(s[i] == s.drop_last()[i]);
            }
        }
    } else {
        assert(s.take(s.len() as int) =~= s);
    }
}

/// A text trims to nothing exactly when all of it is whitespace.
pub proof fn lemma_blank_iff_all_ws(s: Seq<char>)
    ensures
        (trim_seq(s).len() == 0) <==> (forall|i: int| 0 <= i < s.len() ==> is_ws(#[trigger] s[i])),
{
    lemma_trim_start_shape(s);
    let m = trim_start_seq(s);
    lemma_trim_end_shape(m);
    let k = s.len() - m.len();
    if trim_seq(s).len() == 0 {
        assert forall|i: int| 0 <= i < s.len() implies is_ws(#[trigger] s[i]) by {
            if i >= k {
                assert(s[i] == m[i - k]);
            }
        }
    }
    if forall|i: int| 0 <= i < s.len() ==> is_ws(#[trigger] s[i]) {
        if m.len() > 0 {
            assert(m[0] == s[k]);
        }
    }
}

/// A non-empty trimmed text begins and ends with non-whitespace, so trimming
/// it again changes nothing.
pub proof fn lemma_trim_idempotent(s: Seq<char>)
    ensures
        trim_seq(trim_seq(s)) == trim_seq(s),
        trim_seq(s).len() > 0 ==> !is_ws(trim_seq(s)[0]) && !is_ws(trim_seq(s).last()),
{
    lemma_trim_start_shape(s);
    let m = trim_start_seq(s);
    lemma_trim_end_shape(m);
    let t = trim_seq(s);
    if t.len() > 0 {
        assert(t[0] == m[0]);
        assert(!is_ws(t[0]));
        assert(trim_start_seq(t) == t);
        assert(trim_end_seq(t) == t);
    } else {
        assert(trim_start_seq(t) == t);
        assert(trim_end_seq(t) == t);
    }
}

/// Bounds `(a, b)` such that `v[a..b]` is `v` trimmed.
pub fn trim_bounds(v: &Vec<char>) -> (r: (usize, usize))
    ensures
        r.0 <= r.1 <= v.len(),
        v@.subrange(r.0 as int, r.1 as int) == trim_seq(v@),
{
    let n = v.len();
    let mut a: usize = 0;
    assert(v@.skip(0) =~= v@);
    while a < n && is_whitespace(v[a])
        invariant
            n == v.len(),
            a <= n,
            trim_start_seq(v@) == trim_start_seq(v@.skip(a as int)),
        decreases n - a,
    {
        assert(v@.skip(a as int).drop_first() =~= v@.skip(a + 1));
        a += 1;
    }
    assert(trim_start_seq(v@) == v@.skip(a as int));
    let mut b: usize = n;
    assert(v@.skip(a as int) =~= v@.subrange(a as int, n as int));
    while b > a && is_whitespace(v[b - 1])
        invariant
            n == v.len(),
            a <= b <= n,
            trim_end_seq(v@.subrange(a as int, n as int)) == trim_end_seq(
                v@.subrange(a as int, b as int),
            ),
        decreases b - a,
    {
        assert(v@.subrange(a as int, b as int).drop_last() =~= v@.subrange(
            a as int,
            b - 1,
        ));
        b -= 1;
    }
    (a, b)
}

/// `str::trim`.
pub fn trim(s: &str) -> (r: String)
    ensures
        r@ == trim_seq(s@),
{
    let v = chars_of(s);
    let (a, b) = trim_bounds(&v);
    let t = sub_vec(&v, a, b);
    string_of(t.as_slice())
}

/// Whether `str::trim` of `s` is empty.
pub fn is_blank(s: &str) -> (r: bool)
    ensures
        r == (trim_seq(s@).len() == 0),
{
    let v = chars_of(s);
    let (a, b) = trim_bounds(&v);
    a == b
}

// ------------------------------------------------------------------
// Replacement
// ------------------------------------------------------------------

/// `str::replace`: every non-overlapping occurrence of `from`, scanning left
/// to right, becomes `to`; an empty `from` matches before every character and
/// at the end.
pub open spec fn replace_seq(s: Seq<char>, from: Seq<char>, to: Seq<char>) -> Seq<char>
    decreases s.len(),
{
    if s.len() == 0 {
        if from.len() == 0 {
            to
        } else {
            seq![]
        }
    } else if from.len() == 0 {
        to + seq![s[0]] + replace_seq(s.drop_first(), from, to)
    } else if from.len() <= s.len() && s.take(from.len() as int) == from {
        to + replace_seq(s.skip(from.len() as int), from, to)
    } else {
        seq![s[0]] + replace_seq(s.drop_first(), from, to)
    }
}

pub fn push_all(out: &mut Vec<char>, src: &Vec<char>)
    ensures
        final(out)@ == old(out)@ + src@,
{
    let mut i: usize = 0;
    let ghost start = out@;
    while i < src.len()
        invariant
            i <= src.len(),
            out@ == start + src@.take(i as int),
        decreases src.len() - i,
    {
        out.push(src[i]);
        i += 1;
        assert(out@ =~= start + src@.take(i as int));
    }
    assert(src@.take(src.len() as int) =~= src@);
}

pub fn replace_vec(v: &Vec<char>, f: &Vec<char>, t: &Vec<char>) -> (r: Vec<char>)
    ensures
        r@ == replace_seq(v@, f@, t@),
{
    let n = v.len();
    let mut out: Vec<char> = Vec::new();
    let mut i: usize = 0;
    assert(v@.skip(0) =~= v@);
    while i < n
        invariant
            n == v.len(),
            i <= n,
            out@ + replace_seq(v@.skip(i as int), f@, t@) == replace_seq(v@, f@, t@),
        decreases n - i,
    {
        let ghost rest = v@.skip(i as int);
        let ghost before = out@;
        assert(rest.drop_first() =~= v@.skip(i + 1));
        if f.len() == 0 {
            push_all(&mut out, t);
            out.push(v[i]);
            assert(out@ =~= before + (t@ + seq![rest[0]]));
            assert(before + (t@ + seq![rest[0]] + replace_seq(rest.drop_first(), f@, t@))
                =~= out@ + replace_seq(rest.drop_first(), f@, t@));
            i += 1;
        } else if occurs_at_exec(v, f, i) {
            assert(rest.take(f.len() as int) =~= v@.subrange(i as int, i + f.len()));
            assert(rest.skip(f.len() as int) =~= v@.skip(i + f.len()));
            push_all(&mut out, t);
            assert(before + (t@ + replace_seq(rest.skip(f.len() as int), f@, t@)) =~= out@
                + replace_seq(rest.skip(f.len() as int), f@, t@));
            i += f.len();
        } else {
            assert(f.len() <= rest.len() ==> rest.take(f.len() as int) =~= v@.subrange(
                i as int,
                i + f.len(),
            ));
            out.push(v[i]);
            assert(before + (seq![rest[0]] + replace_seq(rest.drop_first(), f@, t@)) =~= out@
                + replace_seq(rest.drop_first(), f@, t@));
            i += 1;
        }
    }
    assert(v@.skip(n as int) =~= Seq::<char>::empty());
    if f.len() == 0 {
        push_all(&mut out, t);
    } else {
        assert(out@ + Seq::<char>::empty() =~= out@);
    }
    out
}

/// `str::replace` with string patterns.
pub fn replace(s: &str, from: &str, to: &str) -> (r: String)
    ensures
        r@ == replace_seq(s@, from@, to@),
{
    let v = chars_of(s);
    let f = chars_of(from);
    let t = chars_of(to);
    let r = replace_vec(&v, &f, &t);
    string_of(r.as_slice())
}

// ------------------------------------------------------------------
// Joining
// ------------------------------------------------------------------

/// The parts, with `sep` between neighbours (`[T]::join`).
pub open spec fn join_seq(parts: Seq<Seq<char>>, sep: Seq<char>) -> Seq<char>
    decreases parts.len(),
{
    if parts.len() == 0 {
        seq![]
    } else if parts.len() == 1 {
        parts[0]
    } else {
        join_seq(parts.drop_last(), sep) + sep + parts.last()
    }
}

pub open spec fn views(parts: Seq<String>) -> Seq<Seq<char>> {
    parts.map_values(|p: String| p@)
}

/// `[String]::join`.
pub fn join(parts: &Vec<String>, sep: &str) -> (r: String)
    ensures
        r@ == join_seq(views(parts@), sep@),
{
    let mut res = String::new();
    let ghost all = views(parts@);
    let mut i: usize = 0;
    while i < parts.len()
        invariant
            i <= parts.len(),
            all == views(parts@),
            res@ == join_seq(all.take(i as int), sep@),
        decreases parts.len() - i,
    {
        if i != 0 {
            res.append(sep);
        }
        res.append(parts[i].as_str());
        assert(all.take(i + 1).drop_last() =~= all.take(i as int));
        i += 1;
    }
    assert(all.take(parts.len() as int) =~= all);
    res
}

// ------------------------------------------------------------------
// Whitespace collapsing
// ------------------------------------------------------------------

/// Reads `s` left to right: a whitespace run after some written word sets a
/// pending separator; a non-whitespace character is written, preceded by one
/// space when a separator is pending.
pub open spec fn collapse_acc(s: Seq<char>, pending: bool, started: bool) -> Seq<char>
    decreases s.len(),
{
    if s.len() == 0 {
        seq![]
    } else if is_ws(s[0]) {
        collapse_acc(s.drop_first(), started, started)
    } else {
        (if pending {
            seq![' ', s[0]]
        } else {
            seq![s[0]]
        }) + collapse_acc(s.drop_first(), false, true)
    }
}

/// The whitespace-separated words of `s`, joined by single spaces
/// (`s.split_whitespace().collect::<Vec<_>>().join(" ")`).
pub open spec fn collapse_ws(s: Seq<char>) -> Seq<char> {
    collapse_acc(s, false, false)
}

pub fn collapse_whitespace(s: &str) -> (r: String)
    ensures
        r@ == collapse_ws(s@),
{
    let v = chars_of(s);
    let n = v.len();
    let mut out: Vec<char> = Vec::new();
    let mut pending = false;
    let mut started = false;
    let mut i: usize = 0;
    assert(v@.skip(0) =~= v@);
    while i < n
        invariant
            n == v.len(),
            i <= n,
            out@ + collapse_acc(v@.skip(i as int), pending, started) == collapse_ws(v@),
        decreases n - i,
    {
        let ghost rest = v@.skip(i as int);
        let ghost before = out@;
        assert(rest.drop_first() =~= v@.skip(i + 1));
        let c = v[i];
        if is_whitespace(c) {
            pending = started;
        } else {
            if pending {
                out.push(' ');
            }
            out.push(c);
            assert(before + ((if pending {
                seq![' ', c]
            } else {
                seq![c]
            }) + collapse_acc(rest.drop_first(), false, true)) =~= out@ + collapse_acc(
                rest.drop_first(),
                false,
                true,
            ));
            pending = false;
            started = true;
        }
        i += 1;
    }
    assert(out@ + Seq::<char>::empty() =~= out@);
    string_of(out.as_slice())
}

// ------------------------------------------------------------------
// Prefixes of a character count
// ------------------------------------------------------------------

pub open spec fn min_nat(a: nat, b: nat) -> nat {
    if a <= b {
        a
    } else {
        b
    }
}

/// `s.chars().take(n).collect::<String>()`.
pub fn take_chars(s: &str, n: usize) -> (r: String)
    ensures
        r@ == s@.take(min_nat(n as nat, s@.len()) as int),
{
    let v = chars_of(s);
    let m = if n < v.len() {
        n
    } else {
        v.len()
    };
    let t = sub_vec(&v, 0, m);
    string_of(t.as_slice())
}

// ------------------------------------------------------------------
// Lines
// ------------------------------------------------------------------

/// Cuts `s` at each newline; `cur` is the part of the current line read so
/// far.  Gives the complete lines and the unterminated rest.
pub open spec fn split_lines(s: Seq<char>, cur: Seq<char>) -> (Seq<Seq<char>>, Seq<char>)
    decreases s.len(),
{
    if s.len() == 0 {
        (seq![], cur)
    } else if s[0] == '\n' {
        let r = split_lines(s.drop_first(), seq![]);
        (seq![cur] + r.0, r.1)
    } else {
        split_lines(s.drop_first(), cur.push(s[0]))
    }
}

/// A line's trailing carriage return removed.
pub open spec fn strip_cr(l: Seq<char>) -> Seq<char> {
    if l.len() > 0 && l.last() == '\r' {
        l.drop_last()
    } else {
        l
    }
}

/// `str::lines`: the pieces between newlines, each terminated piece without
/// a trailing carriage return; no piece after a final newline.
pub open spec fn str_lines(s: Seq<char>) -> Seq<Seq<char>> {
    let (ls, rest) = split_lines(s, seq![]);
    ls.map_values(|l: Seq<char>| strip_cr(l)) + if rest.len() > 0 {
        seq![rest]
    } else {
        seq![]
    }
}

pub fn lines(s: &str) -> (r: Vec<String>)
    ensures
        views(r@) == str_lines(s@),
{
    let v = chars_of(s);
    let n = v.len();
    let ghost total = split_lines(v@, seq![]);
    let mut out: Vec<String> = Vec::new();
    let mut cur: Vec<char> = Vec::new();
    let mut i: usize = 0;
    assert(v@.skip(0) =~= v@);
    while i < n
        invariant
            n == v.len(),
            i <= n,
            views(out@) + split_lines(v@.skip(i as int), cur@).0.map_values(
                |l: Seq<char>| strip_cr(l),
            ) == total.0.map_values(|l: Seq<char>| strip_cr(l)),
            split_lines(v@.skip(i as int), cur@).1 == total.1,
        decreases n - i,
    {
        let ghost rest = v@.skip(i as int);
        assert(rest.drop_first() =~= v@.skip(i + 1));
        let c = v[i];
        if c == '\n' {
            let ghost r = split_lines(rest.drop_first(), seq![]);
            let ghost before = views(out@);
            let ghost line = cur@;
            let len = cur.len();
            let piece = if len > 0 && cur[len - 1] == '\r' {
                sub_vec(&cur, 0, len - 1)
            } else {
                sub_vec(&cur, 0, len)
            };
            assert(piece@ == strip_cr(line)) by {
                if len > 0 && line.last() == '\r' {
                    assert(line.drop_last() =~= line.subrange(0, len - 1));
                } else {
                    assert(line =~= line.subrange(0, len as int));
                }
            }
            out.push(string_of(piece.as_slice()));
            assert(views(out@) =~= before.push(strip_cr(line)));
            assert((seq![line] + r.0).map_values(|l: Seq<char>| strip_cr(l)) =~= seq![strip_cr(line)]
                + r.0.map_values(|l: Seq<char>| strip_cr(l)));
            assert(before.push(strip_cr(line)) + r.0.map_values(|l: Seq<char>| strip_cr(l)) =~= before + (
            seq![strip_cr(line)] + r.0.map_values(|l: Seq<char>| strip_cr(l))));
            cur = Vec::new();
            assert(cur@ =~= Seq::<char>::empty());
        } else {
            cur.push(c);
        }
        i += 1;
    }
    assert(v@.skip(n as int) =~= Seq::<char>::empty());
    assert(Seq::<Seq<char>>::empty().map_values(|l: Seq<char>| strip_cr(l)) =~= Seq::<Seq<char>>::empty());
    assert(views(out@) + Seq::<Seq<char>>::empty() =~= views(out@));
    if cur.len() > 0 {
        let ghost before = views(out@);
        out.push(string_of(cur.as_slice()));
        assert(views(out@) =~= before + seq![total.1]);
    } else {
        assert(views(out@) =~= views(out@) + Seq::<Seq<char>>::empty());
    }
    out
}

// ------------------------------------------------------------------
// Numbers and flags as text
// ------------------------------------------------------------------

/// The character of a decimal digit.
pub open spec fn digit_char(d: nat) -> char {
    ((d + 48) as u8) as char
}

/// The decimal notation of `n`, as `Display` for integers writes it.
pub open spec fn decimal(n: nat) -> Seq<char>
    decreases n,
{
    if n < 10 {
        seq![digit_char(n)]
    } else {
        decimal(n / 10).push(digit_char(n % 10))
    }
}

pub fn push_decimal(out: &mut Vec<char>, n: u64)
    ensures
        final(out)@ == old(out)@ + decimal(n as nat),
    decreases n,
{
    if n >= 10 {
        push_decimal(out, n / 10);
    }
    let d: u8 = (n % 10) as u8;
    out.push((d + 48) as char);
    proof {
        if n < 10 {
            assert(old(out)@ + decimal(n as nat) =~= old(out)@.push(digit_char(n as nat)));
        } else {
            assert(old(out)@ + decimal((n / 10) as nat) + seq![digit_char((n % 10) as nat)]
                =~= old(out)@ + decimal(n as nat));
        }
    }
}

/// `n.to_string()` for an unsigned integer.
pub fn u64_to_string(n: u64) -> (r: String)
    ensures
        r@ == decimal(n as nat),
{
    let mut out: Vec<char> = Vec::new();
    push_decimal(&mut out, n);
    assert(Seq::<char>::empty() + decimal(n as nat) =~= decimal(n as nat));
    string_of(out.as_slice())
}

/// `b.to_string()` for a flag.
pub open spec fn bool_text(b: bool) -> Seq<char> {
    if b {
        "true"@
    } else {
        "false"@
    }
}

pub fn bool_to_string(b: bool) -> (r: String)
    ensures
        r@ == bool_text(b),
{
    if b {
        to_string("true")
    } else {
        to_string("false")
    }
}

/// Whether one of `v` has the characters of `s`.
pub fn strings_contain(v: &Vec<String>, s: &str) -> (r: bool)
    ensures
        r == views(v@).contains(s@),
{
    let mut i: usize = 0;
    while i < v.len()
        invariant
            i <= v.len(),
            forall|k: int| 0 <= k < i ==> (#[trigger] v@[k])@ != s@,
        decreases v.len() - i,
    {
        if str_eq(v[i].as_str(), s) {
            assert(views(v@)[i as int] == s@);
            return true;
        }
        i += 1;
    }
    assert forall|k: int| 0 <= k < views(v@).len() implies views(v@)[k] != s@ by {
        assert(v@[k]@ != s@);
    }
    false
}

/// A `String` holding the characters of `s`.
pub fn to_string(s: &str) -> (r: String)
    ensures
        r@ == s@,
{
    String::from_str(s)
}

} // verus!
