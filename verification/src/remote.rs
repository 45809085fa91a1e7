//! Canonical `host/repo-path` identity of a remote source URL.

use vstd::prelude::*;

use crate::text::{
    ascii_lower, ascii_lower_seq, chars_eq, is_ws, lemma_first_occ_found, lemma_first_pos, lemma_lead_eq, lemma_trail_eq, lemma_last_pos, lemma_lead_ws, lemma_trail_ws, lead_ws, occurs_at, trail_ws, chars_of, concat_chars, ends_with, find_char, find_pat, first_occ,
    first_pos, has_prefix, has_suffix, last_pos, lower_ascii, rfind_char, slice_chars,
    starts_with, string_from, trim_char, trim_end_char, trim_end_eq, trim_eq, trim_ws,
    trim_ws_chars,
};

verus! {

/// Position of the first `?` or `#` in `s`, or `s.len()` when there is none.
pub open spec fn query_pos(s: Seq<char>) -> int
    decreases s.len(),
{
    if s.len() == 0 {
        0
    } else if s[0] == '?' || s[0] == '#' {
        0
    } else {
        1 + query_pos(s.drop_first())
    }
}

pub proof fn lemma_query_pos(s: Seq<char>, i: int)
    requires
        0 <= i <= s.len(),
        forall|j: int| 0 <= j < i ==> #[trigger] s[j] != '?' && s[j] != '#',
        i == s.len() || s[i] == '?' || s[i] == '#',
    ensures
        query_pos(s) == i,
    decreases i,
{
    if i > 0 {
        let t = s.drop_first();
        assert forall|j: int| 0 <= j < i - 1 implies #[trigger] t[j] != '?' && t[j] != '#' by {
            assert(t[j] == s[j + 1]);
        }
        lemma_query_pos(t, i - 1);
    }
}

/// The schemes a remote URL may use.
pub open spec fn is_remote_scheme(lower: Seq<char>) -> bool {
    lower == "http"@ || lower == "https"@ || lower == "ssh"@ || lower == "git"@
}

/// `(authority, path)` of a remote URL that is not `file:` and not empty, or
/// `None` when it cannot be split.
///
/// `scheme://authority/path`, or the SCP-like `[user@]host:path`.
pub open spec fn split_remote(s: Seq<char>) -> Option<(Seq<char>, Seq<char>)> {
    let sep = first_occ(s, "://"@);
    if sep < s.len() {
        let scheme = s.take(sep);
        let rest = s.skip(sep + 3);
        if !is_remote_scheme(ascii_lower_seq(scheme)) {
            None
        } else {
            let slash = first_pos(rest, '/');
            if slash < rest.len() {
                Some((rest.take(slash), rest.skip(slash + 1)))
            } else {
                Some((rest, Seq::<char>::empty()))
            }
        }
    } else {
        let hp = s.skip(last_pos(s, '@') + 1);
        let colon = first_pos(hp, ':');
        if colon < hp.len() {
            Some((hp.take(colon), hp.skip(colon + 1)))
        } else {
            None
        }
    }
}

/// The repository path with query/fragment, surrounding `/`, a `.git`
/// suffix and then trailing `/` removed.
pub open spec fn clean_repo_path(path: Seq<char>) -> Seq<char> {
    let q = path.take(query_pos(path));
    let p1 = trim_eq(q, '/');
    let p2 = if ends_with(p1, ".git"@) {
        p1.take(p1.len() - 4)
    } else {
        p1
    };
    trim_end_eq(p2, '/')
}

/// `host/repo-path`, host lower-cased and stripped of any `user@`, or `None`
/// when the URL has no recognizable remote form.
pub open spec fn remote_owner(url: Seq<char>) -> Option<Seq<char>> {
    let s = trim_ws(url);
    if s.len() == 0 || starts_with(s, "file:"@) {
        None
    } else {
        match split_remote(s) {
            None => None,
            Some((authority, path)) => {
                let host = ascii_lower_seq(authority.skip(last_pos(authority, '@') + 1));
                let repo = clean_repo_path(path);
                if host.len() > 0 && repo.len() > 0 {
                    Some(host + seq!['/'] + repo)
                } else {
                    None
                }
            },
        }
    }
}

fn find_query(s: &Vec<char>) -> (r: usize)
    ensures
        r == query_pos(s@),
        r <= s.len(),
{
    let mut i: usize = 0;
    while i < s.len() && s[i] != '?' && s[i] != '#'
        invariant
            i <= s.len(),
            forall|j: int| 0 <= j < i ==> #[trigger] s@[j] != '?' && s@[j] != '#',
        decreases s.len() - i,
    {
        i = i + 1;
    }
    proof {
        lemma_query_pos(s@, i as int);
    }
    i
}

fn remote_scheme(lower: &Vec<char>) -> (r: bool)
    ensures
        r == is_remote_scheme(lower@),
{
    let http = chars_of("http");
    let https = chars_of("https");
    let ssh = chars_of("ssh");
    let git = chars_of("git");
    chars_eq(lower, &http) || chars_eq(lower, &https) || chars_eq(lower, &ssh) || chars_eq(
        lower,
        &git,
    )
}

fn split_remote_chars(s: &Vec<char>) -> (r: Option<(Vec<char>, Vec<char>)>)
    ensures
        match (r, split_remote(s@)) {
            (Some((a, p)), Some((sa, sp))) => a@ == sa && p@ == sp,
            (None, None) => true,
            _ => false,
        },
{
    let pat = chars_of("://");
    proof {
        reveal_strlit("://");
    }
    let sep = find_pat(s, &pat);
    if sep < s.len() {
        let scheme = slice_chars(s, 0, sep);
        assert(sep + 3 <= s.len());
        let rest = slice_chars(s, sep + 3, s.len());
        assert(scheme@ == s@.take(sep as int));
        assert(rest@ == s@.skip(sep + 3));
        let lower = lower_ascii(&scheme);
        if !remote_scheme(&lower) {
            return None;
        }
        let slash = find_char(&rest, '/');
        if slash < rest.len() {
            let a = slice_chars(&rest, 0, slash);
            let p = slice_chars(&rest, slash + 1, rest.len());
            assert(a@ == rest@.take(slash as int));
            assert(p@ == rest@.skip(slash + 1));
            Some((a, p))
        } else {
            assert(rest@.subrange(0, rest.len() as int) =~= rest@);
            Some((rest, Vec::new()))
        }
    } else {
        let start: usize = match rfind_char(s, '@') {
            Some(i) => i + 1,
            None => 0,
        };
        let hp = slice_chars(s, start, s.len());
        assert(hp@ == s@.skip(last_pos(s@, '@') + 1));
        let colon = find_char(&hp, ':');
        if colon < hp.len() {
            let a = slice_chars(&hp, 0, colon);
            let p = slice_chars(&hp, colon + 1, hp.len());
            assert(a@ == hp@.take(colon as int));
            assert(p@ == hp@.skip(colon + 1));
            Some((a, p))
        } else {
            None
        }
    }
}

fn clean_repo_path_chars(path: &Vec<char>) -> (r: Vec<char>)
    ensures
        r@ == clean_repo_path(path@),
{
    let qi = find_query(path);
    let q = slice_chars(path, 0, qi);
    assert(q@ == path@.take(qi as int));
    let p1 = trim_char(&q, '/');
    let dotgit = chars_of(".git");
    proof {
        reveal_strlit(".git");
    }
    let p2 = if has_suffix(&p1, &dotgit) {
        let cut = slice_chars(&p1, 0, p1.len() - 4);
        assert(cut@ == p1@.take(p1.len() - 4));
        cut
    } else {
        p1
    };
    trim_end_char(&p2, '/')
}

/// Canonical host + repo-path identity for the common remote URL forms
/// (`http`, `https`, `ssh`, `git` URLs and SCP-like `[user@]host:path`). The
/// transport, any `user@`, a query or fragment and an optional `.git` suffix
/// do not define ownership; the host does. `None` for `file:` sources, empty
/// input and anything it cannot split into a host and a path.
pub fn remote_owner_from_url(source_url: &str) -> (r: Option<String>)
    ensures
        match (r, remote_owner(source_url@)) {
            (Some(o), Some(so)) => o@ == so,
            (None, None) => true,
            _ => false,
        },
{
    let raw = chars_of(source_url);
    let s = trim_ws_chars(&raw);
    let file = chars_of("file:");
    proof {
        reveal_strlit("file:");
    }
    if s.len() == 0 || has_prefix(&s, &file) {
        return None;
    }
    match split_remote_chars(&s) {
        None => None,
        Some((authority, path)) => {
            let start: usize = match rfind_char(&authority, '@') {
                Some(i) => i + 1,
                None => 0,
            };
            let host_raw = slice_chars(&authority, start, authority.len());
            assert(host_raw@ == authority@.skip(last_pos(authority@, '@') + 1));
            let host = lower_ascii(&host_raw);
            let repo = clean_repo_path_chars(&path);
            if host.len() > 0 && repo.len() > 0 {
                let mut out = host;
                out.push('/');
                let joined = concat_chars(&out, &repo);
                Some(string_from(&joined))
            } else {
                None
            }
        },
    }
}

/// The owner of what follows a recognized `scheme://` (its surrounding
/// whitespace already trimmed).
spec fn owner_after_scheme(rest: Seq<char>) -> Option<Seq<char>> {
    let slash = first_pos(rest, '/');
    let (authority, path) = if slash < rest.len() {
        (rest.take(slash), rest.skip(slash + 1))
    } else {
        (rest, Seq::<char>::empty())
    };
    let host = ascii_lower_seq(authority.skip(last_pos(authority, '@') + 1));
    let repo = clean_repo_path(path);
    if host.len() > 0 && repo.len() > 0 {
        Some(host + seq!['/'] + repo)
    } else {
        None
    }
}

spec fn lower_letter(c: char) -> bool {
    'a' <= c && c <= 'z'
}

proof fn lemma_trail_ws_after(p: Seq<char>, r: Seq<char>)
    requires
        p.len() > 0,
        !is_ws(p.last()),
    ensures
        trail_ws(p + r) == trail_ws(r),
        trail_ws(r) <= r.len(),
    decreases r.len(),
{
    if r.len() == 0 {
        assert(p + r =~= p);
    } else {
        assert((p + r).drop_last() =~= p + r.drop_last());
        assert((p + r).last() == r.last());
        lemma_trail_ws_after(p, r.drop_last());
    }
}

/// A URL made of a lower-case scheme, `://` and `rest`: its owner is that of
/// `rest` (trimmed at its end) when the scheme is a remote one, else none.
proof fn lemma_scheme_url(sc: Seq<char>, rest: Seq<char>)
    requires
        sc.len() > 0,
        forall|j: int| 0 <= j < sc.len() ==> lower_letter(#[trigger] sc[j]),
        sc[0] != 'f',
    ensures
        remote_owner(sc + seq![':', '/', '/'] + rest) == if is_remote_scheme(sc) {
            owner_after_scheme(rest.take(rest.len() - trail_ws(rest)))
        } else {
            None
        },
{
    reveal_strlit("://");
    reveal_strlit("file:");
    let p = sc + seq![':', '/', '/'];
    let u = p + rest;
    assert(sc + seq![':', '/', '/'] + rest == u);
    let tw = trail_ws(rest);
    lemma_trail_ws_after(p, rest);
    assert(!is_ws(u[0])) by {
        assert(u[0] == sc[0]);
        assert(lower_letter(sc[0]));
    }
    lemma_lead_ws(u, 0);
    let r2 = rest.take(rest.len() - tw);
    let s = trim_ws(u);
    assert(lead_ws(u) == 0);
    assert(u.skip(0) =~= u);
    assert(trail_ws(u) == tw);
    assert(u.take(u.len() - tw) =~= p + r2);
    assert(s =~= p + r2);
    assert(!starts_with(s, "file:"@)) by {
        if starts_with(s, "file:"@) {
            assert(s.take(5)[0] == s[0]);
            assert("file:"@[0] == 'f');
        }
    }
    let n = sc.len() as int;
    assert(occurs_at(s, "://"@, n)) by {
        assert(s.subrange(n, n + 3) =~= "://"@);
    }
    assert forall|j: int| 0 <= j < n implies !occurs_at(s, "://"@, j) by {
        if occurs_at(s, "://"@, j) {
            assert(s.subrange(j, j + 3)[0] == s[j]);
            assert(s[j] == sc[j]);
            assert(lower_letter(sc[j]));
        }
    }
    lemma_first_occ_found(s, "://"@, n);
    assert(s.take(n) =~= sc);
    assert(s.skip(n + 3) =~= r2);
    assert(ascii_lower_seq(sc) =~= sc) by {
        assert forall|j: int| 0 <= j < sc.len() implies #[trigger] ascii_lower_seq(sc)[j] == sc[j] by {
            assert(lower_letter(sc[j]));
        }
    }
}

/// The transport does not define ownership: an `http`, `https`, `ssh` or
/// `git` URL of the same host and path has the same owner.
pub proof fn lemma_transport_does_not_define_owner(rest: Seq<char>)
    ensures
        remote_owner(seq!['h', 't', 't', 'p', ':', '/', '/'] + rest) == remote_owner(
            seq!['h', 't', 't', 'p', 's', ':', '/', '/'] + rest,
        ),
        remote_owner(seq!['s', 's', 'h', ':', '/', '/'] + rest) == remote_owner(
            seq!['h', 't', 't', 'p', 's', ':', '/', '/'] + rest,
        ),
        remote_owner(seq!['g', 'i', 't', ':', '/', '/'] + rest) == remote_owner(
            seq!['h', 't', 't', 'p', 's', ':', '/', '/'] + rest,
        ),
{
    reveal_strlit("http");
    reveal_strlit("https");
    reveal_strlit("ssh");
    reveal_strlit("git");
    let http = seq!['h', 't', 't', 'p'];
    let https = seq!['h', 't', 't', 'p', 's'];
    let ssh = seq!['s', 's', 'h'];
    let git = seq!['g', 'i', 't'];
    assert(http =~= "http"@);
    assert(https =~= "https"@);
    assert(ssh =~= "ssh"@);
    assert(git =~= "git"@);
    lemma_scheme_url(http, rest);
    lemma_scheme_url(https, rest);
    lemma_scheme_url(ssh, rest);
    lemma_scheme_url(git, rest);
    assert(http + seq![':', '/', '/'] + rest =~= seq!['h', 't', 't', 'p', ':', '/', '/'] + rest);
    assert(https + seq![':', '/', '/'] + rest =~= seq!['h', 't', 't', 'p', 's', ':', '/', '/'] + rest);
    assert(ssh + seq![':', '/', '/'] + rest =~= seq!['s', 's', 'h', ':', '/', '/'] + rest);
    assert(git + seq![':', '/', '/'] + rest =~= seq!['g', 'i', 't', ':', '/', '/'] + rest);
}

/// The owner of `host/path` after a recognized scheme: the host
/// lower-cased, then the repository path cleaned.
proof fn lemma_host_path_owner(host: Seq<char>, path: Seq<char>)
    requires
        host.len() > 0,
        forall|j: int| 0 <= j < host.len() ==> #[trigger] host[j] != '/' && host[j] != '@',
        path.len() > 0,
        !is_ws(path.last()),
        clean_repo_path(path).len() > 0,
    ensures
        ({
            let rest = host + seq!['/'] + path;
            owner_after_scheme(rest.take(rest.len() - trail_ws(rest))) == Some(
                ascii_lower_seq(host) + seq!['/'] + clean_repo_path(path),
            )
        }),
{
    let rest = host + seq!['/'] + path;
    assert(rest[rest.len() - 1] == path.last());
    lemma_trail_ws(rest, 0);
    assert(rest.take(rest.len() as int) =~= rest);
    let n = host.len() as int;
    assert forall|j: int| 0 <= j < n implies #[trigger] rest[j] != '/' by {
        assert(rest[j] == host[j]);
    }
    lemma_first_pos(rest, '/', n);
    assert(rest.take(n) =~= host);
    assert(rest.skip(n + 1) =~= path);
    lemma_last_pos(host, '@', -1);
    assert(host.skip(0) =~= host);
}

/// A web URL `http://HOST/PATH` (or `https://`) with a host free of `/` and
/// `@` and a path that names a repository is owned by the lower-cased host
/// and the path without its `.git`, query and surrounding slashes.
pub proof fn lemma_web_url_owner(host: Seq<char>, path: Seq<char>)
    requires
        host.len() > 0,
        forall|j: int| 0 <= j < host.len() ==> #[trigger] host[j] != '/' && host[j] != '@',
        path.len() > 0,
        !is_ws(path.last()),
        clean_repo_path(path).len() > 0,
    ensures
        remote_owner(seq!['h', 't', 't', 'p', ':', '/', '/'] + host + seq!['/'] + path) == Some(
            ascii_lower_seq(host) + seq!['/'] + clean_repo_path(path),
        ),
        remote_owner(seq!['h', 't', 't', 'p', 's', ':', '/', '/'] + host + seq!['/'] + path) == Some(
            ascii_lower_seq(host) + seq!['/'] + clean_repo_path(path),
        ),
{
    reveal_strlit("http");
    let http = seq!['h', 't', 't', 'p'];
    assert(http =~= "http"@);
    let rest = host + seq!['/'] + path;
    lemma_host_path_owner(host, path);
    lemma_scheme_url(http, rest);
    assert(http + seq![':', '/', '/'] + rest =~= seq!['h', 't', 't', 'p', ':', '/', '/'] + host + seq!['/'] + path);
    reveal_strlit("https");
    let https = seq!['h', 't', 't', 'p', 's'];
    assert(https =~= "https"@);
    lemma_scheme_url(https, rest);
    assert(https + seq![':', '/', '/'] + rest =~= seq!['h', 't', 't', 'p', 's', ':', '/', '/'] + host + seq!['/']
        + path);
}

proof fn lemma_lower_twice(s: Seq<char>)
    ensures
        ascii_lower_seq(ascii_lower_seq(s)) == ascii_lower_seq(s),
{
    assert(ascii_lower_seq(ascii_lower_seq(s)) =~= ascii_lower_seq(s));
}

/// Neither a `user@` in front of the host nor the host's letter case
/// defines ownership: `https://USER@HOST/PATH`, `https://HOST/PATH` and
/// `https://host/PATH` (host lower-cased) have the same owner.
pub proof fn lemma_user_and_case_do_not_define_owner(user: Seq<char>, host: Seq<char>, path: Seq<char>)
    requires
        forall|j: int| 0 <= j < user.len() ==> #[trigger] user[j] != '/' && user[j] != '@',
        forall|j: int| 0 <= j < host.len() ==> #[trigger] host[j] != '/' && host[j] != '@',
        path.len() > 0,
        !is_ws(path.last()),
    ensures
        remote_owner(seq!['h', 't', 't', 'p', 's', ':', '/', '/'] + user + seq!['@'] + host + seq!['/'] + path)
            == remote_owner(seq!['h', 't', 't', 'p', 's', ':', '/', '/'] + host + seq!['/'] + path),
        remote_owner(seq!['h', 't', 't', 'p', 's', ':', '/', '/'] + ascii_lower_seq(host) + seq!['/'] + path)
            == remote_owner(seq!['h', 't', 't', 'p', 's', ':', '/', '/'] + host + seq!['/'] + path),
{
    reveal_strlit("https");
    let https = seq!['h', 't', 't', 'p', 's'];
    assert(https =~= "https"@);
    let pre = https + seq![':', '/', '/'];
    assert(pre =~= seq!['h', 't', 't', 'p', 's', ':', '/', '/']);
    // Each form is `pre + authority + '/' + path` with an authority free of
    // `/`; its owner is the lower-cased part after the last `@`, then the
    // cleaned path.
    assert forall|a: Seq<char>|
        (forall|j: int| 0 <= j < a.len() ==> #[trigger] a[j] != '/') implies remote_owner(pre + (a + seq!['/'] + path))
        == ({
            let host = ascii_lower_seq(a.skip(last_pos(a, '@') + 1));
            let repo = clean_repo_path(path);
            if host.len() > 0 && repo.len() > 0 {
                Some(host + seq!['/'] + repo)
            } else {
                None::<Seq<char>>
            }
        }) by {
        let rest = a + seq!['/'] + path;
        lemma_scheme_url(https, rest);
        assert(rest[rest.len() - 1] == path.last());
        lemma_trail_ws(rest, 0);
        assert(rest.take(rest.len() as int) =~= rest);
        let n = a.len() as int;
        assert forall|j: int| 0 <= j < n implies #[trigger] rest[j] != '/' by {
            assert(rest[j] == a[j]);
        }
        lemma_first_pos(rest, '/', n);
        assert(rest.take(n) =~= a);
        assert(rest.skip(n + 1) =~= path);
        assert(pre + rest =~= https + seq![':', '/', '/'] + rest);
    }
    let ua = user + seq!['@'] + host;
    assert forall|j: int| 0 <= j < ua.len() implies #[trigger] ua[j] != '/' by {
        if j < user.len() {
            assert(ua[j] == user[j]);
        } else if j > user.len() {
            assert(ua[j] == host[j - user.len() - 1]);
        }
    }
    assert forall|j: int| 0 <= j < host.len() implies #[trigger] host[j] != '/' by {}
    let lh = ascii_lower_seq(host);
    assert forall|j: int| 0 <= j < lh.len() implies #[trigger] lh[j] != '/' && lh[j] != '@' by {
        assert(lh[j] == ascii_lower(host[j]));
        assert(host[j] != '/' && host[j] != '@');
    }
    assert forall|j: int| user.len() < j < ua.len() implies #[trigger] ua[j] != '@' by {
        assert(ua[j] == host[j - user.len() - 1]);
    }
    lemma_last_pos(ua, '@', user.len() as int);
    assert(ua.skip(user.len() as int + 1) =~= host);
    lemma_last_pos(host, '@', -1);
    assert(host.skip(0) =~= host);
    lemma_last_pos(lh, '@', -1);
    assert(lh.skip(0) =~= lh);
    lemma_lower_twice(host);
    assert(pre + (ua + seq!['/'] + path) =~= seq!['h', 't', 't', 'p', 's', ':', '/', '/'] + user + seq!['@'] + host
        + seq!['/'] + path);
    assert(pre + (host + seq!['/'] + path) =~= seq!['h', 't', 't', 'p', 's', ':', '/', '/'] + host + seq!['/']
        + path);
    assert(pre + (lh + seq!['/'] + path) =~= seq!['h', 't', 't', 'p', 's', ':', '/', '/'] + lh + seq!['/'] + path);
}

/// The repository path of a remote is the same with or without a `.git`
/// suffix or a query: `q`, `q.git` and `q?x` (for a path `q` without `/`
/// at either end, `?`, `#`, or a `.git` of its own) all clean to `q`.
pub proof fn lemma_git_suffix_and_query_do_not_define_repo(q: Seq<char>, x: Seq<char>)
    requires
        q.len() > 0,
        q[0] != '/',
        q.last() != '/',
        forall|j: int| 0 <= j < q.len() ==> #[trigger] q[j] != '?' && q[j] != '#',
        !ends_with(q, seq!['.', 'g', 'i', 't']),
    ensures
        clean_repo_path(q) == q,
        clean_repo_path(q + seq!['.', 'g', 'i', 't']) == q,
        clean_repo_path(q + seq!['?'] + x) == q,
{
    reveal_strlit(".git");
    assert(".git"@ =~= seq!['.', 'g', 'i', 't']);
    // `q` itself.
    lemma_query_pos(q, q.len() as int);
    assert(q.take(q.len() as int) =~= q);
    lemma_lead_eq(q, '/', 0);
    assert(q.skip(0) =~= q);
    lemma_trail_eq(q, '/', 0);
    assert(trim_eq(q, '/') =~= q);
    lemma_trail_eq(q, '/', 0);
    // `q?x`.
    let qx = q + seq!['?'] + x;
    assert forall|j: int| 0 <= j < q.len() implies #[trigger] qx[j] != '?' && qx[j] != '#' by {
        assert(qx[j] == q[j]);
    }
    lemma_query_pos(qx, q.len() as int);
    assert(qx.take(q.len() as int) =~= q);
    // `q.git`.
    let g = q + seq!['.', 'g', 'i', 't'];
    assert forall|j: int| 0 <= j < g.len() implies #[trigger] g[j] != '?' && g[j] != '#' by {
        if j < q.len() {
            assert(g[j] == q[j]);
        }
    }
    lemma_query_pos(g, g.len() as int);
    assert(g.take(g.len() as int) =~= g);
    assert(g[0] == q[0]);
    lemma_lead_eq(g, '/', 0);
    assert(g.skip(0) =~= g);
    lemma_trail_eq(g, '/', 0);
    assert(trim_eq(g, '/') =~= g);
    assert(g.skip(g.len() - 4) =~= seq!['.', 'g', 'i', 't']);
    assert(g.take(g.len() - 4) =~= q);
}

} // verus!
