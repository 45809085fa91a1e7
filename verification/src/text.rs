//! Character-sequence helpers shared by the path, name and URL logic.
//!
//! Strings enter the library as `String`/`&str` and are worked on as `Vec<char>`;
//! every helper here states its result over `Seq<char>`.

use vstd::prelude::*;

verus! {

/// Appends one character to `s` (`String::push`).
#[verifier::external_body]
pub(crate) fn push_char(s: &mut String, c: char)
    ensures
        final(s)@ == old(s)@.push(c),
{
    s.push(c);
}

/// The characters of `s`, in order.
pub fn chars_of(s: &str) -> (out: Vec<char>)
    ensures
        out@ == s@,
{
    let mut out: Vec<char> = Vec::new();
    for c in it: s.chars()
        invariant
            out@ == it.seq().take(it.index() as int),
    {
        out.push(c);
    }
    out
}

/// A `String` holding exactly the characters of `v`.
pub fn string_from(v: &Vec<char>) -> (out: String)
    ensures
        out@ == v@,
{
    let mut out = String::new();
    let mut i: usize = 0;
    while i < v.len()
        invariant
            i <= v.len(),
            out@ == v@.take(i as int),
        decreases v.len() - i,
    {
        push_char(&mut out, v[i]);
        assert(v@.take(i + 1) == v@.take(i as int).push(v@[i as int]));
        i = i + 1;
    }
    assert(v@.take(v.len() as int) == v@);
    out
}

/// A `String` copy of `s`.
pub fn owned(s: &str) -> (out: String)
    ensures
        out@ == s@,
{
    let v = chars_of(s);
    string_from(&v)
}

/// Equality of two character sequences.
pub fn chars_eq(a: &Vec<char>, b: &Vec<char>) -> (r: bool)
    ensures
        r == (a@ == b@),
{
    if a.len() != b.len() {
        return false;
    }
    let mut i: usize = 0;
    while i < a.len()
        invariant
            a.len() == b.len(),
            i <= a.len(),
            forall|j: int| 0 <= j < i ==> a@[j] == b@[j],
        decreases a.len() - i,
    {
        if a[i] != b[i] {
            return false;
        }
        i = i + 1;
    }
    assert(a@ =~= b@);
    true
}

/// Equality of two strings by their characters.
pub fn str_eq(a: &str, b: &str) -> (r: bool)
    ensures
        r == (a@ == b@),
{
    let av = chars_of(a);
    let bv = chars_of(b);
    chars_eq(&av, &bv)
}

/// Unicode `White_Space`, the set `char::is_whitespace` (and so `str::trim`)
/// uses.
pub open spec fn is_ws(c: char) -> bool {
    ||| c == ' '
    ||| ('\t' <= c && c <= '\r')
    ||| c == '\u{85}'
    ||| c == '\u{a0}'
    ||| c == '\u{1680}'
    ||| ('\u{2000}' <= c && c <= '\u{200a}')
    ||| c == '\u{2028}'
    ||| c == '\u{2029}'
    ||| c == '\u{202f}'
    ||| c == '\u{205f}'
    ||| c == '\u{3000}'
}

pub fn char_is_ws(c: char) -> (r: bool)
    ensures
        r == is_ws(c),
{
    c == ' ' || ('\t' <= c && c <= '\r') || c == '\u{85}' || c == '\u{a0}' || c == '\u{1680}'
        || ('\u{2000}' <= c && c <= '\u{200a}') || c == '\u{2028}' || c == '\u{2029}' || c
        == '\u{202f}' || c == '\u{205f}' || c == '\u{3000}'
}

/// ASCII lower-casing of one character (`char::to_ascii_lowercase`).
pub open spec fn ascii_lower(c: char) -> char {
    if 'A' <= c && c <= 'Z' {
        ((c as u32) + 32) as char
    } else {
        c
    }
}

pub fn to_ascii_lower(c: char) -> (r: char)
    ensures
        r == ascii_lower(c),
{
    if 'A' <= c && c <= 'Z' {
        let b: u8 = (c as u32) as u8;
        let l: u8 = b + 32;
        l as char
    } else {
        c
    }
}

/// `str::to_ascii_lowercase` over a character sequence.
pub open spec fn ascii_lower_seq(s: Seq<char>) -> Seq<char> {
    s.map_values(|c: char| ascii_lower(c))
}

pub fn lower_ascii(s: &Vec<char>) -> (out: Vec<char>)
    ensures
        out@ == ascii_lower_seq(s@),
{
    let mut out: Vec<char> = Vec::new();
    let mut i: usize = 0;
    while i < s.len()
        invariant
            i <= s.len(),
            out@ == ascii_lower_seq(s@.take(i as int)),
        decreases s.len() - i,
    {
        let c = to_ascii_lower(s[i]);
        out.push(c);
        assert(ascii_lower_seq(s@.take(i + 1)) =~= ascii_lower_seq(s@.take(i as int)).push(
            ascii_lower(s@[i as int]),
        ));
        i = i + 1;
    }
    assert(s@.take(s.len() as int) == s@);
    out
}

/// Number of leading characters of `s` equal to `c`.
pub open spec fn lead_eq(s: Seq<char>, c: char) -> nat
    decreases s.len(),
{
    if s.len() > 0 && s[0] == c {
        1 + lead_eq(s.drop_first(), c)
    } else {
        0
    }
}

/// Number of trailing characters of `s` equal to `c`.
pub open spec fn trail_eq(s: Seq<char>, c: char) -> nat
    decreases s.len(),
{
    if s.len() > 0 && s.last() == c {
        1 + trail_eq(s.drop_last(), c)
    } else {
        0
    }
}

/// Number of leading whitespace characters of `s`.
pub open spec fn lead_ws(s: Seq<char>) -> nat
    decreases s.len(),
{
    if s.len() > 0 && is_ws(s[0]) {
        1 + lead_ws(s.drop_first())
    } else {
        0
    }
}

/// Number of trailing whitespace characters of `s`.
pub open spec fn trail_ws(s: Seq<char>) -> nat
    decreases s.len(),
{
    if s.len() > 0 && is_ws(s.last()) {
        1 + trail_ws(s.drop_last())
    } else {
        0
    }
}

/// `str::trim`: whitespace removed from both ends.
pub open spec fn trim_ws(s: Seq<char>) -> Seq<char> {
    let t = s.skip(lead_ws(s) as int);
    t.take(t.len() - trail_ws(t))
}

/// `str::trim_matches(c)` for one character.
pub open spec fn trim_eq(s: Seq<char>, c: char) -> Seq<char> {
    let t = s.skip(lead_eq(s, c) as int);
    t.take(t.len() - trail_eq(t, c))
}

/// `str::trim_end_matches(c)` for one character.
pub open spec fn trim_end_eq(s: Seq<char>, c: char) -> Seq<char> {
    s.take(s.len() - trail_eq(s, c))
}

pub proof fn lemma_lead_ws(s: Seq<char>, i: int)
    requires
        0 <= i <= s.len(),
        forall|j: int| 0 <= j < i ==> is_ws(#[trigger] s[j]),
        i == s.len() || !is_ws(s[i]),
    ensures
        lead_ws(s) == i,
        lead_ws(s) <= s.len(),
    decreases i,
{
    if i > 0 {
        let t = s.drop_first();
        assert forall|j: int| 0 <= j < i - 1 implies is_ws(#[trigger] t[j]) by {
            assert(t[j] == s[j + 1]);
        }
        lemma_lead_ws(t, i - 1);
    }
}

pub proof fn lemma_trail_ws(s: Seq<char>, k: int)
    requires
        0 <= k <= s.len(),
        forall|j: int| s.len() - k <= j < s.len() ==> is_ws(#[trigger] s[j]),
        k == s.len() || !is_ws(s[s.len() - k - 1]),
    ensures
        trail_ws(s) == k,
    decreases k,
{
    if k > 0 {
        let t = s.drop_last();
        assert forall|j: int| t.len() - (k - 1) <= j < t.len() implies is_ws(#[trigger] t[j]) by {
            assert(t[j] == s[j]);
        }
        lemma_trail_ws(t, k - 1);
    }
}

pub proof fn lemma_lead_eq(s: Seq<char>, c: char, i: int)
    requires
        0 <= i <= s.len(),
        forall|j: int| 0 <= j < i ==> #[trigger] s[j] == c,
        i == s.len() || s[i] != c,
    ensures
        lead_eq(s, c) == i,
    decreases i,
{
    if i > 0 {
        let t = s.drop_first();
        assert forall|j: int| 0 <= j < i - 1 implies #[trigger] t[j] == c by {
            assert(t[j] == s[j + 1]);
        }
        lemma_lead_eq(t, c, i - 1);
    }
}

pub proof fn lemma_trail_eq(s: Seq<char>, c: char, k: int)
    requires
        0 <= k <= s.len(),
        forall|j: int| s.len() - k <= j < s.len() ==> #[trigger] s[j] == c,
        k == s.len() || s[s.len() - k - 1] != c,
    ensures
        trail_eq(s, c) == k,
    decreases k,
{
    if k > 0 {
        let t = s.drop_last();
        assert forall|j: int| t.len() - (k - 1) <= j < t.len() implies #[trigger] t[j] == c by {
            assert(t[j] == s[j]);
        }
        lemma_trail_eq(t, c, k - 1);
    }
}

/// The characters of `s` from `lo` up to (not including) `hi`.
pub fn slice_chars(s: &Vec<char>, lo: usize, hi: usize) -> (out: Vec<char>)
    requires
        lo <= hi <= s.len(),
    ensures
        out@ == s@.subrange(lo as int, hi as int),
{
    let mut out: Vec<char> = Vec::new();
    let mut i: usize = lo;
    while i < hi
        invariant
            lo <= i <= hi <= s.len(),
            out@ == s@.subrange(lo as int, i as int),
        decreases hi - i,
    {
        out.push(s[i]);
        assert(s@.subrange(lo as int, i + 1) == s@.subrange(lo as int, i as int).push(
            s@[i as int],
        ));
        i = i + 1;
    }
    out
}

/// `str::trim` over characters.
pub fn trim_ws_chars(s: &Vec<char>) -> (out: Vec<char>)
    ensures
        out@ == trim_ws(s@),
{
    let mut lo: usize = 0;
    while lo < s.len() && char_is_ws(s[lo])
        invariant
            lo <= s.len(),
            forall|j: int| 0 <= j < lo ==> is_ws(#[trigger] s@[j]),
        decreases s.len() - lo,
    {
        lo = lo + 1;
    }
    proof {
        lemma_lead_ws(s@, lo as int);
    }
    let ghost t = s@.skip(lo as int);
    let mut hi: usize = s.len();
    while hi > lo && char_is_ws(s[hi - 1])
        invariant
            lo <= hi <= s.len(),
            forall|j: int| hi <= j < s.len() ==> is_ws(#[trigger] s@[j]),
        decreases hi,
    {
        hi = hi - 1;
    }
    proof {
        assert forall|j: int| t.len() - (s.len() - hi) <= j < t.len() implies is_ws(#[trigger] t[j]) by {
            assert(t[j] == s@[j + lo]);
        }
        if hi > lo {
            assert(t[t.len() - (s.len() - hi) - 1] == s@[hi - 1]);
        }
        lemma_trail_ws(t, s.len() - hi);
        assert(t.take(t.len() - trail_ws(t)) =~= s@.subrange(lo as int, hi as int));
    }
    slice_chars(s, lo, hi)
}

/// `str::trim_matches(c)` over characters.
pub fn trim_char(s: &Vec<char>, c: char) -> (out: Vec<char>)
    ensures
        out@ == trim_eq(s@, c),
{
    let mut lo: usize = 0;
    while lo < s.len() && s[lo] == c
        invariant
            lo <= s.len(),
            forall|j: int| 0 <= j < lo ==> #[trigger] s@[j] == c,
        decreases s.len() - lo,
    {
        lo = lo + 1;
    }
    proof {
        lemma_lead_eq(s@, c, lo as int);
    }
    let ghost t = s@.skip(lo as int);
    let mut hi: usize = s.len();
    while hi > lo && s[hi - 1] == c
        invariant
            lo <= hi <= s.len(),
            forall|j: int| hi <= j < s.len() ==> #[trigger] s@[j] == c,
        decreases hi,
    {
        hi = hi - 1;
    }
    proof {
        assert forall|j: int| t.len() - (s.len() - hi) <= j < t.len() implies #[trigger] t[j]
            == c by {
            assert(t[j] == s@[j + lo]);
        }
        if hi > lo {
            assert(t[t.len() - (s.len() - hi) - 1] == s@[hi - 1]);
        }
        lemma_trail_eq(t, c, s.len() - hi);
        assert(t.take(t.len() - trail_eq(t, c)) =~= s@.subrange(lo as int, hi as int));
    }
    slice_chars(s, lo, hi)
}

/// `str::trim_end_matches(c)` over characters.
pub fn trim_end_char(s: &Vec<char>, c: char) -> (out: Vec<char>)
    ensures
        out@ == trim_end_eq(s@, c),
{
    let mut hi: usize = s.len();
    while hi > 0 && s[hi - 1] == c
        invariant
            hi <= s.len(),
            forall|j: int| hi <= j < s.len() ==> #[trigger] s@[j] == c,
        decreases hi,
    {
        hi = hi - 1;
    }
    proof {
        lemma_trail_eq(s@, c, s.len() - hi);
    }
    slice_chars(s, 0, hi)
}

/// Position of the first `c` in `s`, or `s.len()` when there is none.
pub open spec fn first_pos(s: Seq<char>, c: char) -> int
    decreases s.len(),
{
    if s.len() == 0 {
        0
    } else if s[0] == c {
        0
    } else {
        1 + first_pos(s.drop_first(), c)
    }
}

/// Position of the last `c` in `s`, or `-1` when there is none.
pub open spec fn last_pos(s: Seq<char>, c: char) -> int
    decreases s.len(),
{
    if s.len() == 0 {
        -1
    } else if s.last() == c {
        s.len() - 1
    } else {
        last_pos(s.drop_last(), c)
    }
}

pub proof fn lemma_first_pos(s: Seq<char>, c: char, i: int)
    requires
        0 <= i <= s.len(),
        forall|j: int| 0 <= j < i ==> #[trigger] s[j] != c,
        i == s.len() || s[i] == c,
    ensures
        first_pos(s, c) == i,
    decreases i,
{
    if i > 0 {
        let t = s.drop_first();
        assert forall|j: int| 0 <= j < i - 1 implies #[trigger] t[j] != c by {
            assert(t[j] == s[j + 1]);
        }
        lemma_first_pos(t, c, i - 1);
    }
}

pub proof fn lemma_last_pos(s: Seq<char>, c: char, i: int)
    requires
        -1 <= i < s.len(),
        forall|j: int| i < j < s.len() ==> #[trigger] s[j] != c,
        i == -1 || s[i] == c,
    ensures
        last_pos(s, c) == i,
    decreases s.len(),
{
    if s.len() > 0 && s.last() != c {
        let t = s.drop_last();
        assert forall|j: int| i < j < t.len() implies #[trigger] t[j] != c by {
            assert(t[j] == s[j]);
        }
        lemma_last_pos(t, c, i);
    }
}

/// Position of the first `c` in `s` (`s.len()` when absent).
pub fn find_char(s: &Vec<char>, c: char) -> (r: usize)
    ensures
        r == first_pos(s@, c),
        r <= s.len(),
        r < s.len() ==> s@[r as int] == c,
        forall|j: int| 0 <= j < r ==> #[trigger] s@[j] != c,
{
    let mut i: usize = 0;
    while i < s.len() && s[i] != c
        invariant
            i <= s.len(),
            forall|j: int| 0 <= j < i ==> #[trigger] s@[j] != c,
        decreases s.len() - i,
    {
        i = i + 1;
    }
    proof {
        lemma_first_pos(s@, c, i as int);
    }
    i
}

/// Position of the last `c` in `s`, if any.
pub fn rfind_char(s: &Vec<char>, c: char) -> (r: Option<usize>)
    ensures
        r matches Some(i) ==> i == last_pos(s@, c) && i < s.len() && s@[i as int] == c,
        r is None ==> last_pos(s@, c) == -1,
        forall|j: int| 0 <= j < s.len() && s@[j] == c ==> (r matches Some(i) && j <= i),
{
    let mut i: usize = s.len();
    while i > 0 && s[i - 1] != c
        invariant
            i <= s.len(),
            forall|j: int| i <= j < s.len() ==> #[trigger] s@[j] != c,
        decreases i,
    {
        i = i - 1;
    }
    if i == 0 {
        proof {
            lemma_last_pos(s@, c, -1);
        }
        None
    } else {
        proof {
            lemma_last_pos(s@, c, i - 1);
        }
        Some(i - 1)
    }
}

/// Whether `s` contains `c`.
pub fn contains_char(s: &Vec<char>, c: char) -> (r: bool)
    ensures
        r == s@.contains(c),
        r == (first_pos(s@, c) < s.len()),
{
    let i = find_char(s, c);
    if i < s.len() {
        assert(s@[i as int] == c);
        true
    } else {
        false
    }
}

/// Whether `p` occurs in `s` starting at `i`.
pub open spec fn occurs_at(s: Seq<char>, p: Seq<char>, i: int) -> bool {
    0 <= i && i + p.len() <= s.len() && s.subrange(i, i + p.len()) == p
}

/// Position of the first occurrence of a non-empty `p` in `s`, or `s.len()`
/// when there is none.
pub open spec fn first_occ(s: Seq<char>, p: Seq<char>) -> int
    decreases s.len(),
{
    if s.len() < p.len() || p.len() == 0 {
        s.len() as int
    } else if s.take(p.len() as int) == p {
        0
    } else {
        1 + first_occ(s.drop_first(), p)
    }
}

pub proof fn lemma_occurs_shift(s: Seq<char>, p: Seq<char>, j: int)
    requires
        s.len() > 0,
        0 <= j,
    ensures
        occurs_at(s.drop_first(), p, j) == occurs_at(s, p, j + 1),
{
    let t = s.drop_first();
    if 0 <= j && j + p.len() <= t.len() {
        assert(t.subrange(j, j + p.len()) =~= s.subrange(j + 1, j + 1 + p.len()));
    }
}

pub proof fn lemma_first_occ_found(s: Seq<char>, p: Seq<char>, i: int)
    requires
        p.len() > 0,
        occurs_at(s, p, i),
        forall|j: int| 0 <= j < i ==> !occurs_at(s, p, j),
    ensures
        first_occ(s, p) == i,
    decreases i,
{
    assert(s.take(p.len() as int) =~= s.subrange(0, p.len() as int));
    if i > 0 {
        let t = s.drop_first();
        lemma_occurs_shift(s, p, i - 1);
        assert forall|j: int| 0 <= j < i - 1 implies !occurs_at(t, p, j) by {
            lemma_occurs_shift(s, p, j);
        }
        assert(!occurs_at(s, p, 0));
        lemma_first_occ_found(t, p, i - 1);
    }
}

pub proof fn lemma_first_occ_none(s: Seq<char>, p: Seq<char>)
    requires
        p.len() > 0,
        forall|j: int| !occurs_at(s, p, j),
    ensures
        first_occ(s, p) == s.len(),
    decreases s.len(),
{
    if s.len() >= p.len() {
        assert(s.take(p.len() as int) =~= s.subrange(0, p.len() as int));
        assert(!occurs_at(s, p, 0));
        let t = s.drop_first();
        assert forall|j: int| !occurs_at(t, p, j) by {
            if j >= 0 {
                lemma_occurs_shift(s, p, j);
            }
        }
        lemma_first_occ_none(t, p);
    }
}

/// Position of the first occurrence of a non-empty `p` in `s` (`s.len()` when
/// absent).
pub fn find_pat(s: &Vec<char>, p: &Vec<char>) -> (r: usize)
    requires
        p.len() > 0,
    ensures
        r == first_occ(s@, p@),
        r < s.len() ==> occurs_at(s@, p@, r as int),
        r == s.len() ==> forall|j: int| !occurs_at(s@, p@, j),
{
    let mut i: usize = 0;
    while i <= s.len() && p.len() <= s.len() - i
        invariant
            p.len() > 0,
            forall|j: int| 0 <= j < i ==> !occurs_at(s@, p@, j),
        decreases s.len() - i,
    {
        let mut k: usize = 0;
        while k < p.len() && s[i + k] == p[k]
            invariant
                i + p.len() <= s.len(),
                k <= p.len(),
                forall|m: int| 0 <= m < k ==> s@[i + m] == p@[m],
            decreases p.len() - k,
        {
            k = k + 1;
        }
        if k == p.len() {
            assert(s@.subrange(i as int, i + p.len()) =~= p@);
            proof {
                lemma_first_occ_found(s@, p@, i as int);
            }
            return i;
        }
        assert(s@.subrange(i as int, i + p.len())[k as int] != p@[k as int]);
        i = i + 1;
    }
    assert forall|j: int| !occurs_at(s@, p@, j) by {
        if j >= i {
            assert(j + p.len() > s.len());
        }
    }
    proof {
        lemma_first_occ_none(s@, p@);
    }
    s.len()
}

/// Whether `s` begins with `p`.
pub open spec fn starts_with(s: Seq<char>, p: Seq<char>) -> bool {
    s.len() >= p.len() && s.take(p.len() as int) == p
}

/// Whether `s` ends with `p`.
pub open spec fn ends_with(s: Seq<char>, p: Seq<char>) -> bool {
    s.len() >= p.len() && s.skip(s.len() - p.len()) == p
}

pub fn has_prefix(s: &Vec<char>, p: &Vec<char>) -> (r: bool)
    ensures
        r == starts_with(s@, p@),
{
    if s.len() < p.len() {
        return false;
    }
    let mut k: usize = 0;
    while k < p.len()
        invariant
            p.len() <= s.len(),
            k <= p.len(),
            forall|m: int| 0 <= m < k ==> s@[m] == p@[m],
        decreases p.len() - k,
    {
        if s[k] != p[k] {
            assert(s@.take(p.len() as int)[k as int] != p@[k as int]);
            return false;
        }
        k = k + 1;
    }
    assert(s@.take(p.len() as int) =~= p@);
    true
}

pub fn has_suffix(s: &Vec<char>, p: &Vec<char>) -> (r: bool)
    ensures
        r == ends_with(s@, p@),
{
    if s.len() < p.len() {
        return false;
    }
    let off = s.len() - p.len();
    let mut k: usize = 0;
    while k < p.len()
        invariant
            p.len() <= s.len(),
            off == s.len() - p.len(),
            k <= p.len(),
            forall|m: int| 0 <= m < k ==> s@[off + m] == p@[m],
        decreases p.len() - k,
    {
        if s[off + k] != p[k] {
            assert(s@.skip(off as int)[k as int] != p@[k as int]);
            return false;
        }
        k = k + 1;
    }
    assert(s@.skip(off as int) =~= p@);
    true
}

/// Number of occurrences of `c` in `s`.
pub open spec fn count_char(s: Seq<char>, c: char) -> nat
    decreases s.len(),
{
    if s.len() == 0 {
        0
    } else {
        count_char(s.drop_last(), c) + if s.last() == c {
            1nat
        } else {
            0nat
        }
    }
}

pub fn count_of(s: &Vec<char>, c: char) -> (r: usize)
    ensures
        r == count_char(s@, c),
{
    let mut n: usize = 0;
    let mut i: usize = 0;
    while i < s.len()
        invariant
            i <= s.len(),
            n == count_char(s@.take(i as int), c),
            n <= i,
        decreases s.len() - i,
    {
        assert(s@.take(i + 1).drop_last() =~= s@.take(i as int));
        if s[i] == c {
            n = n + 1;
        }
        i = i + 1;
    }
    assert(s@.take(s.len() as int) =~= s@);
    n
}

/// Concatenation of two character vectors.
pub fn concat_chars(a: &Vec<char>, b: &Vec<char>) -> (out: Vec<char>)
    ensures
        out@ == a@ + b@,
{
    let mut out = slice_chars(a, 0, a.len());
    assert(a@.subrange(0, a.len() as int) =~= a@);
    let mut i: usize = 0;
    while i < b.len()
        invariant
            i <= b.len(),
            out@ == a@ + b@.take(i as int),
        decreases b.len() - i,
    {
        out.push(b[i]);
        assert(a@ + b@.take(i + 1) =~= (a@ + b@.take(i as int)).push(b@[i as int]));
        i = i + 1;
    }
    assert(b@.take(b.len() as int) =~= b@);
    out
}

/// The decimal digit `d` (for `d < 10`).
pub open spec fn digit(d: nat) -> char {
    if d == 0 {
        '0'
    } else if d == 1 {
        '1'
    } else if d == 2 {
        '2'
    } else if d == 3 {
        '3'
    } else if d == 4 {
        '4'
    } else if d == 5 {
        '5'
    } else if d == 6 {
        '6'
    } else if d == 7 {
        '7'
    } else if d == 8 {
        '8'
    } else {
        '9'
    }
}

/// `n` written in decimal, without leading zeros.
pub open spec fn decimal(n: nat) -> Seq<char>
    decreases n,
{
    if n < 10 {
        seq![digit(n)]
    } else {
        decimal(n / 10).push(digit(n % 10))
    }
}

fn digit_of(d: usize) -> (c: char)
    requires
        d < 10,
    ensures
        c == digit(d as nat),
{
    if d == 0 {
        '0'
    } else if d == 1 {
        '1'
    } else if d == 2 {
        '2'
    } else if d == 3 {
        '3'
    } else if d == 4 {
        '4'
    } else if d == 5 {
        '5'
    } else if d == 6 {
        '6'
    } else if d == 7 {
        '7'
    } else if d == 8 {
        '8'
    } else {
        '9'
    }
}

fn decimal_chars(n: usize) -> (out: Vec<char>)
    ensures
        out@ == decimal(n as nat),
    decreases n,
{
    if n < 10 {
        let mut v: Vec<char> = Vec::new();
        v.push(digit_of(n));
        assert(v@ =~= seq![digit(n as nat)]);
        v
    } else {
        let mut v = decimal_chars(n / 10);
        v.push(digit_of(n % 10));
        v
    }
}

/// `n` as a decimal `String`.
pub fn decimal_string(n: usize) -> (out: String)
    ensures
        out@ == decimal(n as nat),
{
    let v = decimal_chars(n);
    string_from(&v)
}

} // verus!
