//! Paths as `/`-separated strings: joining, leaf and parent, containment, and
//! the fixed skill-store locations.

use vstd::prelude::*;

use crate::text::{
    chars_eq, chars_of, concat_chars, has_prefix, last_pos, rfind_char, slice_chars, starts_with,
    string_from, trim_end_char, trim_end_eq,
};

verus! {

/// `base.join(leaf)`: an absolute `leaf` replaces `base`; otherwise one `/`
/// separates them (none is added after a trailing `/` or to an empty base).
pub open spec fn join_spec(base: Seq<char>, leaf: Seq<char>) -> Seq<char> {
    if leaf.len() > 0 && leaf[0] == '/' {
        leaf
    } else if base.len() == 0 {
        leaf
    } else if base.last() == '/' {
        base + leaf
    } else {
        base + seq!['/'] + leaf
    }
}

/// The last component, or `None` for an empty path, the root, `.` or `..`.
pub open spec fn file_name_spec(p: Seq<char>) -> Option<Seq<char>> {
    let t = trim_end_eq(p, '/');
    let seg = t.skip(last_pos(t, '/') + 1);
    if seg.len() == 0 || seg == "."@ || seg == ".."@ {
        None
    } else {
        Some(seg)
    }
}

/// Everything before the last component: `None` for an empty path or the
/// root, the empty path for a single relative component.
pub open spec fn parent_spec(p: Seq<char>) -> Option<Seq<char>> {
    let t = trim_end_eq(p, '/');
    let i = last_pos(t, '/');
    if t.len() == 0 {
        None
    } else if i == -1 {
        Some(Seq::empty())
    } else {
        let head = trim_end_eq(t.take(i), '/');
        if head.len() == 0 {
            Some(seq!['/'])
        } else {
            Some(head)
        }
    }
}

/// Component-wise `p.starts_with(root)`: `p` is `root` or lies below it.
pub open spec fn within(p: Seq<char>, root: Seq<char>) -> bool {
    &&& root.len() > 0
    &&& (p == root || (starts_with(p, root) && (root.last() == '/' || p[root.len() as int] == '/')))
}

/// `within`, excluding `root` itself.
pub open spec fn strictly_within(p: Seq<char>, root: Seq<char>) -> bool {
    within(p, root) && p != root
}

pub fn join_chars(base: &Vec<char>, leaf: &Vec<char>) -> (out: Vec<char>)
    ensures
        out@ == join_spec(base@, leaf@),
{
    if leaf.len() > 0 && leaf[0] == '/' {
        slice_chars(leaf, 0, leaf.len())
    } else if base.len() == 0 {
        slice_chars(leaf, 0, leaf.len())
    } else if base[base.len() - 1] == '/' {
        concat_chars(base, leaf)
    } else {
        let mut b = slice_chars(base, 0, base.len());
        b.push('/');
        assert(b@ == base@ + seq!['/']);
        concat_chars(&b, leaf)
    }
}

/// `base.join(leaf)` (see [`join_spec`]).
pub fn join(base: &str, leaf: &str) -> (out: String)
    ensures
        out@ == join_spec(base@, leaf@),
{
    let b = chars_of(base);
    let l = chars_of(leaf);
    let j = join_chars(&b, &l);
    string_from(&j)
}

/// The last component of `p` (see [`file_name_spec`]).
pub fn file_name(p: &str) -> (out: Option<String>)
    ensures
        match (out, file_name_spec(p@)) {
            (Some(o), Some(s)) => o@ == s,
            (None, None) => true,
            _ => false,
        },
{
    let v = chars_of(p);
    let t = trim_end_char(&v, '/');
    let start: usize = match rfind_char(&t, '/') {
        Some(i) => i + 1,
        None => 0,
    };
    let seg = slice_chars(&t, start, t.len());
    assert(seg@ == t@.skip(last_pos(t@, '/') + 1));
    let dot = chars_of(".");
    let dotdot = chars_of("..");
    if seg.len() == 0 || chars_eq(&seg, &dot) || chars_eq(&seg, &dotdot) {
        None
    } else {
        Some(string_from(&seg))
    }
}

/// The parent of `p` (see [`parent_spec`]).
pub fn parent(p: &str) -> (out: Option<String>)
    ensures
        match (out, parent_spec(p@)) {
            (Some(o), Some(s)) => o@ == s,
            (None, None) => true,
            _ => false,
        },
{
    let v = chars_of(p);
    let t = trim_end_char(&v, '/');
    if t.len() == 0 {
        return None;
    }
    match rfind_char(&t, '/') {
        None => Some(String::new()),
        Some(i) => {
            let head0 = slice_chars(&t, 0, i);
            assert(head0@ == t@.take(i as int));
            let head = trim_end_char(&head0, '/');
            if head.len() == 0 {
                let mut r = String::new();
                crate::text::push_char(&mut r, '/');
                Some(r)
            } else {
                Some(string_from(&head))
            }
        },
    }
}

pub fn within_chars(p: &Vec<char>, root: &Vec<char>) -> (r: bool)
    ensures
        r == within(p@, root@),
{
    if root.len() == 0 {
        return false;
    }
    if chars_eq(p, root) {
        return true;
    }
    if !has_prefix(p, root) {
        return false;
    }
    if root[root.len() - 1] == '/' {
        return true;
    }
    if p.len() == root.len() {
        assert(p@ =~= root@) by {
            assert(p@.take(root.len() as int) =~= p@);
        }
        return false;
    }
    p[root.len()] == '/'
}

/// Component-wise: is `p` the path `root` or below it?
pub fn path_within(p: &str, root: &str) -> (r: bool)
    ensures
        r == within(p@, root@),
{
    let a = chars_of(p);
    let b = chars_of(root);
    within_chars(&a, &b)
}

/// The directory to treat as a skill's source root: the parent of a
/// `SKILL.md` path, otherwise the path itself.
pub open spec fn skill_source_root_spec(p: Seq<char>) -> Seq<char> {
    if file_name_spec(p) == Some("SKILL.md"@) {
        match parent_spec(p) {
            Some(d) => d,
            None => p,
        }
    } else {
        p
    }
}

/// Normalize a skill path to its directory: `.../SKILL.md` becomes its
/// parent, anything else is returned as-is.
pub fn skill_source_root(path: &str) -> (out: String)
    ensures
        out@ == skill_source_root_spec(path@),
{
    let skill_md = chars_of("SKILL.md");
    let is_md = match file_name(path) {
        Some(n) => {
            let nv = chars_of(n.as_str());
            chars_eq(&nv, &skill_md)
        },
        None => false,
    };
    if is_md {
        match parent(path) {
            Some(d) => d,
            None => crate::text::owned(path),
        }
    } else {
        crate::text::owned(path)
    }
}

/// The user's home directory (`dirs::home_dir`), as a string. Nothing is
/// stated of it: it comes from the environment.
#[verifier::external_body]
pub(crate) fn home_dir() -> Option<String> {
    dirs::home_dir().map(|p| p.to_string_lossy().into_owned())
}

/// The user's config directory (`dirs::config_dir`, `$XDG_CONFIG_HOME` or
/// `~/.config` on Linux), as a string. Nothing is stated of it: it comes from
/// the environment.
#[verifier::external_body]
pub(crate) fn config_dir() -> Option<String> {
    dirs::config_dir().map(|p| p.to_string_lossy().into_owned())
}

/// `<base>/.agents/skills`.
pub open spec fn agents_skills_under(base: Seq<char>) -> Seq<char> {
    join_spec(join_spec(base, ".agents"@), "skills"@)
}

/// The `.agents/skills` canonical skills dir of a scope: under the project
/// root when there is one, else under `home` (none without a home).
pub open spec fn canonical_dir_spec(project_root: Option<Seq<char>>, home: Option<Seq<char>>) -> Option<
    Seq<char>,
> {
    match project_root {
        Some(root) => Some(agents_skills_under(root)),
        None => match home {
            Some(h) => Some(agents_skills_under(h)),
            None => None,
        },
    }
}

pub fn agents_skills_dir(base: &str) -> (out: String)
    ensures
        out@ == agents_skills_under(base@),
{
    let a = join(base, ".agents");
    join(a.as_str(), "skills")
}

/// [`universal_canonical_dir`] for a known home directory.
pub fn canonical_dir_in(project_root: Option<&str>, home: Option<&str>) -> (out: Option<String>)
    ensures
        match (out, canonical_dir_spec(opt_str(project_root), opt_str(home))) {
            (Some(o), Some(s)) => o@ == s,
            (None, None) => true,
            _ => false,
        },
{
    match project_root {
        Some(root) => Some(agents_skills_dir(root)),
        None => match home {
            Some(h) => Some(agents_skills_dir(h)),
            None => None,
        },
    }
}

/// The view of an optional `&str`.
pub open spec fn opt_str(o: Option<&str>) -> Option<Seq<char>> {
    match o {
        Some(s) => Some(s@),
        None => None,
    }
}

/// Resolve the `.agents/skills` canonical skills dir for a scope:
/// `<root>/.agents/skills` with a project root, else `~/.agents/skills`
/// (`None` when there is no home directory).
pub fn universal_canonical_dir(project_root: Option<&str>) -> (out: Option<String>)
    ensures
        project_root matches Some(root) ==> out matches Some(o) && o@ == agents_skills_under(
            root@,
        ),
{
    match project_root {
        Some(_) => canonical_dir_in(project_root, None),
        None => {
            let home = home_dir();
            match home {
                Some(h) => canonical_dir_in(None, Some(h.as_str())),
                None => None,
            }
        },
    }
}

} // verus!
