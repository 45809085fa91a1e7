//! The on-disk folder name of a skill.

use vstd::prelude::*;

use crate::text::{ascii_lower, chars_of, slice_chars, string_from};

verus! {

/// What `char::to_lowercase` yields for `c`.
pub uninterp spec fn char_lower(c: char) -> Seq<char>;

/// `char::to_lowercase`, collected. For ASCII the result is the single ASCII
/// lower-case character, as the standard library documents.
#[verifier::external_body]
fn lowercase_of(c: char) -> (r: Vec<char>)
    ensures
        r@ == char_lower(c),
        (c as u32) < 128 ==> r@ == seq![ascii_lower(c)],
{
    c.to_lowercase().collect()
}

/// The characters a folder name keeps: `a-z`, `0-9`, `.` and `_`.
pub open spec fn name_char(c: char) -> bool {
    ('a' <= c && c <= 'z') || ('0' <= c && c <= '9') || c == '.' || c == '_'
}

/// One character lower-cased: an ASCII letter to its ASCII lower case
/// (other ASCII characters unchanged), anything else as
/// `char::to_lowercase` gives it.
pub open spec fn lower_char(c: char) -> Seq<char> {
    if (c as u32) < 128 {
        seq![ascii_lower(c)]
    } else {
        char_lower(c)
    }
}

/// `s` lower-cased character by character.
pub open spec fn lower_all(s: Seq<char>) -> Seq<char>
    decreases s.len(),
{
    if s.len() == 0 {
        Seq::empty()
    } else {
        lower_all(s.drop_last()) + lower_char(s.last())
    }
}

/// Every maximal run of characters outside [`name_char`] replaced by one `-`.
pub open spec fn collapse(s: Seq<char>) -> Seq<char>
    decreases s.len(),
{
    if s.len() == 0 {
        Seq::empty()
    } else {
        let p = collapse(s.drop_last());
        if name_char(s.last()) {
            p.push(s.last())
        } else if s.len() >= 2 && !name_char(s[s.len() - 2]) {
            p
        } else {
            p.push('-')
        }
    }
}

pub open spec fn dot_dash(c: char) -> bool {
    c == '.' || c == '-'
}

/// Number of leading `.`/`-` characters.
pub open spec fn lead_dd(s: Seq<char>) -> nat
    decreases s.len(),
{
    if s.len() > 0 && dot_dash(s[0]) {
        1 + lead_dd(s.drop_first())
    } else {
        0
    }
}

/// Number of trailing `.`/`-` characters.
pub open spec fn trail_dd(s: Seq<char>) -> nat
    decreases s.len(),
{
    if s.len() > 0 && dot_dash(s.last()) {
        1 + trail_dd(s.drop_last())
    } else {
        0
    }
}

/// Leading and trailing `.`/`-` removed.
pub open spec fn strip_dd(s: Seq<char>) -> Seq<char> {
    let t = s.skip(lead_dd(s) as int);
    t.take(t.len() - trail_dd(t))
}

/// The folder name of a skill called `name`: lower-cased, every run of
/// characters outside `a-z0-9._` turned into one `-`, leading/trailing `.`
/// and `-` removed, at most 255 characters, and `unnamed-skill` when nothing
/// is left.
pub open spec fn sanitized(name: Seq<char>) -> Seq<char> {
    let s = strip_dd(collapse(lower_all(name)));
    let s = if s.len() > 255 {
        s.take(255)
    } else {
        s
    };
    if s.len() == 0 {
        "unnamed-skill"@
    } else {
        s
    }
}

proof fn lemma_lead_dd(s: Seq<char>, i: int)
    requires
        0 <= i <= s.len(),
        forall|j: int| 0 <= j < i ==> dot_dash(#[trigger] s[j]),
        i == s.len() || !dot_dash(s[i]),
    ensures
        lead_dd(s) == i,
    decreases i,
{
    if i > 0 {
        let t = s.drop_first();
        assert forall|j: int| 0 <= j < i - 1 implies dot_dash(#[trigger] t[j]) by {
            assert(t[j] == s[j + 1]);
        }
        lemma_lead_dd(t, i - 1);
    }
}

proof fn lemma_trail_dd(s: Seq<char>, k: int)
    requires
        0 <= k <= s.len(),
        forall|j: int| s.len() - k <= j < s.len() ==> dot_dash(#[trigger] s[j]),
        k == s.len() || !dot_dash(s[s.len() - k - 1]),
    ensures
        trail_dd(s) == k,
    decreases k,
{
    if k > 0 {
        let t = s.drop_last();
        assert forall|j: int| t.len() - (k - 1) <= j < t.len() implies dot_dash(#[trigger] t[j]) by {
            assert(t[j] == s[j]);
        }
        lemma_trail_dd(t, k - 1);
    }
}

fn is_name_char(c: char) -> (r: bool)
    ensures
        r == name_char(c),
{
    ('a' <= c && c <= 'z') || ('0' <= c && c <= '9') || c == '.' || c == '_'
}

fn strip_dot_dash(s: &Vec<char>) -> (out: Vec<char>)
    ensures
        out@ == strip_dd(s@),
{
    let mut lo: usize = 0;
    while lo < s.len() && (s[lo] == '.' || s[lo] == '-')
        invariant
            lo <= s.len(),
            forall|j: int| 0 <= j < lo ==> dot_dash(#[trigger] s@[j]),
        decreases s.len() - lo,
    {
        lo = lo + 1;
    }
    proof {
        lemma_lead_dd(s@, lo as int);
    }
    let ghost t = s@.skip(lo as int);
    let mut hi: usize = s.len();
    while hi > lo && (s[hi - 1] == '.' || s[hi - 1] == '-')
        invariant
            lo <= hi <= s.len(),
            forall|j: int| hi <= j < s.len() ==> dot_dash(#[trigger] s@[j]),
        decreases hi,
    {
        hi = hi - 1;
    }
    proof {
        assert forall|j: int| t.len() - (s.len() - hi) <= j < t.len() implies dot_dash(
            #[trigger] t[j],
        ) by {
            assert(t[j] == s@[j + lo]);
        }
        if hi > lo {
            assert(t[t.len() - (s.len() - hi) - 1] == s@[hi - 1]);
        }
        lemma_trail_dd(t, s.len() - hi);
        assert(t.take(t.len() - trail_dd(t)) =~= s@.subrange(lo as int, hi as int));
    }
    slice_chars(s, lo, hi)
}

/// Characters of the on-disk folder name for a skill called `name`.
pub fn sanitize_chars(name: &str) -> (out: Vec<char>)
    ensures
        out@ == sanitized(name@),
{
    let src = chars_of(name);
    let mut lowered: Vec<char> = Vec::new();
    let mut i: usize = 0;
    while i < src.len()
        invariant
            i <= src.len(),
            lowered@ == lower_all(src@.take(i as int)),
        decreases src.len() - i,
    {
        let l = lowercase_of(src[i]);
        let mut k: usize = 0;
        let ghost base = lowered@;
        while k < l.len()
            invariant
                k <= l.len(),
                lowered@ == base + l@.take(k as int),
            decreases l.len() - k,
        {
            lowered.push(l[k]);
            assert(base + l@.take(k + 1) =~= (base + l@.take(k as int)).push(l@[k as int]));
            k = k + 1;
        }
        assert(l@.take(l.len() as int) =~= l@);
        assert(src@.take(i + 1).drop_last() =~= src@.take(i as int));
        i = i + 1;
    }
    assert(src@.take(src.len() as int) =~= src@);
    let mut collapsed: Vec<char> = Vec::new();
    let mut j: usize = 0;
    while j < lowered.len()
        invariant
            j <= lowered.len(),
            collapsed@ == collapse(lowered@.take(j as int)),
        decreases lowered.len() - j,
    {
        let c = lowered[j];
        let ghost pre = lowered@.take(j as int);
        assert(lowered@.take(j + 1).drop_last() =~= pre);
        assert(lowered@.take(j + 1).last() == c);
        if is_name_char(c) {
            collapsed.push(c);
        } else if j >= 1 && !is_name_char(lowered[j - 1]) {
            assert(lowered@.take(j + 1)[j - 1] == lowered@[j - 1]);
        } else {
            collapsed.push('-');
        }
        j = j + 1;
    }
    assert(lowered@.take(lowered.len() as int) =~= lowered@);
    let stripped = strip_dot_dash(&collapsed);
    let cut = if stripped.len() > 255 {
        slice_chars(&stripped, 0, 255)
    } else {
        stripped
    };
    if cut.len() == 0 {
        let u = chars_of("unnamed-skill");
        u
    } else {
        cut
    }
}

/// The on-disk folder name for a skill called `name` (see [`sanitized`]).
pub fn sanitize_name(name: &str) -> (out: String)
    ensures
        out@ == sanitized(name@),
{
    let v = sanitize_chars(name);
    string_from(&v)
}

} // verus!
