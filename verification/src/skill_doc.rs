//! How a skill is written back to its `SKILL.md`: which frontmatter keys the
//! skill model owns, the values it writes for them, and how the document is
//! framed around the YAML; and the message a failed relink after a rename
//! reports.

use vstd::prelude::*;

use crate::lock::quoted_message;
use crate::manager::{comma_joined, join_comma};
use crate::models::Skill;
use crate::removal::vs;
use crate::text::{chars_of, decimal, decimal_string, owned, str_eq, string_from};

verus! {

/// The frontmatter keys the skill model owns; every other key belongs to
/// the skill's author and is carried through a rewrite untouched.
pub open spec fn modeled_key(key: Seq<char>) -> bool {
    key == "name"@ || key == "description"@ || key == "author"@ || key == "version"@ || key == "allowed-tools"@
}

/// Whether the skill model owns this frontmatter key.
pub fn is_modeled_key(key: &str) -> (r: bool)
    ensures
        r == modeled_key(key@),
{
    str_eq(key, "name") || str_eq(key, "description") || str_eq(key, "author") || str_eq(key, "version")
        || str_eq(key, "allowed-tools")
}

/// `s` with every newline replaced by a space.
pub open spec fn one_line(s: Seq<char>) -> Seq<char> {
    s.map_values(|c: char| if c == '\n' { ' ' } else { c })
}

/// `parts` joined with `","`.
pub open spec fn tool_list(parts: Seq<Seq<char>>) -> Seq<char>
    decreases parts.len(),
{
    if parts.len() == 0 {
        Seq::empty()
    } else if parts.len() == 1 {
        parts[0]
    } else {
        tool_list(parts.drop_last()) + ","@ + parts.last()
    }
}

/// The frontmatter a skill writes, key and value, in this order: its name,
/// its description on one line (empty when it has none), its author and
/// version when set, and its tools comma-separated when it has any.
pub open spec fn fields_of(skill: Skill) -> Seq<(Seq<char>, Seq<char>)> {
    let base = seq![
        ("name"@, skill.name@),
        (
            "description"@,
            one_line(
                match skill.description {
                    Some(d) => d@,
                    None => Seq::empty(),
                },
            ),
        ),
    ];
    let with_author = match skill.author {
        Some(a) => base.push(("author"@, a@)),
        None => base,
    };
    let with_version = match skill.version {
        Some(v) => with_author.push(("version"@, v@)),
        None => with_author,
    };
    if skill.tools@.len() > 0 {
        with_version.push(("allowed-tools"@, tool_list(vs(skill.tools@))))
    } else {
        with_version
    }
}

pub open spec fn pair_views(v: Seq<(String, String)>) -> Seq<(Seq<char>, Seq<char>)> {
    v.map_values(|p: (String, String)| (p.0@, p.1@))
}

fn one_line_of(s: &str) -> (r: String)
    ensures
        r@ == one_line(s@),
{
    let cs = chars_of(s);
    let mut out: Vec<char> = Vec::new();
    let mut i: usize = 0;
    while i < cs.len()
        invariant
            i <= cs.len(),
            cs@ == s@,
            out@ == one_line(cs@.take(i as int)),
        decreases cs.len() - i,
    {
        let c = cs[i];
        if c == '\n' {
            out.push(' ');
        } else {
            out.push(c);
        }
        assert(one_line(cs@.take(i + 1)) =~= one_line(cs@.take(i as int)).push(if c == '\n' { ' ' } else { c }));
        i = i + 1;
    }
    assert(cs@.take(cs.len() as int) =~= cs@);
    string_from(&out)
}

fn join_tools(parts: &Vec<String>) -> (r: String)
    ensures
        r@ == tool_list(vs(parts@)),
{
    let mut acc: String = owned("");
    proof {
        reveal_strlit("");
    }
    let mut i: usize = 0;
    while i < parts.len()
        invariant
            i <= parts.len(),
            acc@ == tool_list(vs(parts@).take(i as int)),
        decreases parts.len() - i,
    {
        assert(vs(parts@).take(i + 1).drop_last() =~= vs(parts@).take(i as int));
        if i == 0 {
            acc = parts[0].clone();
            assert(vs(parts@).take(1) =~= seq![parts@[0]@]);
        } else {
            acc = quoted_message(acc.as_str(), ",", parts[i].as_str());
        }
        i = i + 1;
    }
    assert(vs(parts@).take(parts.len() as int) =~= vs(parts@));
    acc
}

/// The frontmatter entries a skill owns, as [`fields_of`] states them. They
/// are written over the author's own keys.
pub fn frontmatter_fields(skill: &Skill) -> (r: Vec<(String, String)>)
    ensures
        pair_views(r@) == fields_of(*skill),
{
    let mut out: Vec<(String, String)> = Vec::new();
    out.push((owned("name"), skill.name.clone()));
    let description = match &skill.description {
        Some(d) => one_line_of(d.as_str()),
        None => one_line_of(""),
    };
    proof {
        reveal_strlit("");
        reveal_strlit("name");
        reveal_strlit("description");
        reveal_strlit("author");
        reveal_strlit("version");
        reveal_strlit("allowed-tools");
        assert(""@ =~= Seq::<char>::empty());
        assert(description@ == one_line(
            match skill.description {
                Some(d) => d@,
                None => Seq::empty(),
            },
        ));
    }
    out.push((owned("description"), description));
    let ghost base = pair_views(out@);
    assert(base =~= seq![
        ("name"@, skill.name@),
        (
            "description"@,
            one_line(
                match skill.description {
                    Some(d) => d@,
                    None => Seq::empty(),
                },
            ),
        ),
    ]);
    match &skill.author {
        Some(a) => {
            out.push((owned("author"), a.clone()));
        },
        None => {},
    }
    let ghost with_author = pair_views(out@);
    assert(with_author =~= match skill.author {
        Some(a) => base.push(("author"@, a@)),
        None => base,
    });
    match &skill.version {
        Some(v) => {
            out.push((owned("version"), v.clone()));
        },
        None => {},
    }
    let ghost with_version = pair_views(out@);
    assert(with_version =~= match skill.version {
        Some(v) => with_author.push(("version"@, v@)),
        None => with_author,
    });
    if skill.tools.len() > 0 {
        out.push((owned("allowed-tools"), join_tools(&skill.tools)));
        assert(pair_views(out@) =~= with_version.push(("allowed-tools"@, tool_list(vs(skill.tools@)))));
    }
    out
}

/// A `SKILL.md` around serialized frontmatter `yaml`: the skill's own body
/// when it carries one, else the existing body, else a heading with its
/// name.
pub open spec fn document(yaml: Seq<char>, skill: Skill, existing_body: Option<Seq<char>>) -> Seq<char> {
    let body = match skill.content {
        Some(c) => c@,
        None => match existing_body {
            Some(b) => b,
            None => "\n# "@ + skill.name@ + "\n\n"@,
        },
    };
    "---\n"@ + yaml + "---\n"@ + body
}

/// Frame serialized frontmatter and a body into a `SKILL.md`.
pub fn format_skill(yaml: &str, skill: &Skill, existing_body: Option<&str>) -> (r: String)
    ensures
        r@ == document(
            yaml@,
            *skill,
            match existing_body {
                Some(b) => Some(b@),
                None => None,
            },
        ),
{
    let body = match &skill.content {
        Some(c) => c.clone(),
        None => match existing_body {
            Some(b) => owned(b),
            None => quoted_message("\n# ", skill.name.as_str(), "\n\n"),
        },
    };
    let head = quoted_message("---\n", yaml, "---\n");
    let r = quoted_message(head.as_str(), body.as_str(), "");
    proof {
        reveal_strlit("");
        assert(head@ + body@ + ""@ =~= head@ + body@);
    }
    r
}

/// The referrers a relink left pointing elsewhere: each occupied slot, then
/// each that failed with its error.
pub open spec fn blocked_lines(conflicts: Seq<Seq<char>>, failed: Seq<(String, String)>) -> Seq<Seq<char>> {
    conflicts.map_values(|p: Seq<char>| p + " (occupied)"@) + failed.map_values(
        |f: (String, String)| f.0@ + " ("@ + f.1@ + ")"@,
    )
}

pub open spec fn shortfall_of(conflicts: Seq<Seq<char>>, failed: Seq<(String, String)>) -> Option<Seq<char>> {
    if conflicts.len() == 0 && failed.len() == 0 {
        None
    } else {
        let b = blocked_lines(conflicts, failed);
        Some(
            "could not re-point "@ + decimal(b.len()) + " skill referrer(s) at the renamed master: "@
                + comma_joined(b),
        )
    }
}

/// The referrers a relink failed to re-point, as one message; `None` when
/// every referrer was linked. `conflicts` are occupied slots, `failed` the
/// slots whose link failed, with the error.
pub fn relink_shortfall(conflicts: &Vec<String>, failed: &Vec<(String, String)>) -> (r: Option<String>)
    requires
        conflicts.len() + failed.len() <= usize::MAX,
    ensures
        match shortfall_of(vs(conflicts@), failed@) {
            None => r is None,
            Some(m) => r matches Some(x) && x@ == m,
        },
{
    if conflicts.len() == 0 && failed.len() == 0 {
        return None;
    }
    let mut blocked: Vec<String> = Vec::new();
    let mut i: usize = 0;
    while i < conflicts.len()
        invariant
            i <= conflicts.len(),
            vs(blocked@) == vs(conflicts@).take(i as int).map_values(|p: Seq<char>| p + " (occupied)"@),
        decreases conflicts.len() - i,
    {
        let line = quoted_message("", conflicts[i].as_str(), " (occupied)");
        proof {
            reveal_strlit("");
        }
        let ghost before = vs(blocked@);
        blocked.push(line);
        assert(vs(blocked@) =~= before.push(conflicts@[i as int]@ + " (occupied)"@));
        assert(vs(conflicts@).take(i + 1).map_values(|p: Seq<char>| p + " (occupied)"@) =~= vs(conflicts@).take(
            i as int,
        ).map_values(|p: Seq<char>| p + " (occupied)"@).push(conflicts@[i as int]@ + " (occupied)"@));
        i = i + 1;
    }
    assert(vs(conflicts@).take(conflicts.len() as int) =~= vs(conflicts@));
    let ghost first = vs(blocked@);
    let mut j: usize = 0;
    while j < failed.len()
        invariant
            j <= failed.len(),
            vs(blocked@) == first + failed@.take(j as int).map_values(
                |f: (String, String)| f.0@ + " ("@ + f.1@ + ")"@,
            ),
        decreases failed.len() - j,
    {
        let head = quoted_message("", failed[j].0.as_str(), " (");
        let line = quoted_message(head.as_str(), failed[j].1.as_str(), ")");
        proof {
            reveal_strlit("");
        }
        let ghost before = vs(blocked@);
        let ghost f = failed@[j as int];
        blocked.push(line);
        assert(vs(blocked@) =~= before.push(f.0@ + " ("@ + f.1@ + ")"@));
        assert(failed@.take(j + 1).map_values(|f: (String, String)| f.0@ + " ("@ + f.1@ + ")"@) =~= failed@.take(
            j as int,
        ).map_values(|f: (String, String)| f.0@ + " ("@ + f.1@ + ")"@).push(f.0@ + " ("@ + f.1@ + ")"@));
        j = j + 1;
    }
    assert(failed@.take(failed.len() as int) =~= failed@);
    assert(vs(blocked@) =~= blocked_lines(vs(conflicts@), failed@));
    let count = decimal_string(blocked.len());
    let head = quoted_message("could not re-point ", count.as_str(), " skill referrer(s) at the renamed master: ");
    let joined = join_comma(&blocked);
    let msg = quoted_message(head.as_str(), joined.as_str(), "");
    proof {
        reveal_strlit("");
        assert(msg@ =~= head@ + joined@);
    }
    Some(msg)
}

} // verus!
