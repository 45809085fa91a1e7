//! The library's data: scopes, lock entries and the resources an agent holds.

use vstd::prelude::*;

use crate::table::LockTable;

verus! {

/// Which config scope a resource operation reads or writes.
#[derive(Clone, Copy, Debug, PartialEq, Eq, Structural)]
pub enum ResourceScope {
    GlobalOnly,
    ProjectOnly,
    Both,
}

/// A copy of an optional string.
pub fn clone_opt(o: &Option<String>) -> (r: Option<String>)
    ensures
        r == *o,
{
    match o {
        Some(s) => Some(s.clone()),
        None => None,
    }
}

/// Whether two optional strings hold the same text.
pub fn opt_eq(a: &Option<String>, b: &Option<String>) -> (r: bool)
    ensures
        r == (opt_view(*a) == opt_view(*b)),
{
    match (a, b) {
        (Some(x), Some(y)) => crate::text::str_eq(x.as_str(), y.as_str()),
        (None, None) => true,
        _ => false,
    }
}

/// Character view of an optional string.
pub open spec fn opt_view(o: Option<String>) -> Option<Seq<char>> {
    match o {
        Some(s) => Some(s@),
        None => None,
    }
}

/// One entry of the GLOBAL skill lock (`.skill-lock.json`).
#[derive(Debug)]
pub struct SkillLockEntry {
    pub source: String,
    pub source_type: String,
    pub source_url: String,
    pub ref_name: Option<String>,
    pub skill_path: Option<String>,
    pub skill_folder_hash: String,
    pub content_hash: Option<String>,
    pub ref_commit: Option<String>,
    pub installed_at: String,
    pub updated_at: String,
    pub plugin_name: Option<String>,
}

impl SkillLockEntry {
    /// An exact copy.
    pub fn duplicate(&self) -> (r: Self)
        ensures
            r == *self,
    {
        SkillLockEntry {
            source: self.source.clone(),
            source_type: self.source_type.clone(),
            source_url: self.source_url.clone(),
            ref_name: clone_opt(&self.ref_name),
            skill_path: clone_opt(&self.skill_path),
            skill_folder_hash: self.skill_folder_hash.clone(),
            content_hash: clone_opt(&self.content_hash),
            ref_commit: clone_opt(&self.ref_commit),
            installed_at: self.installed_at.clone(),
            updated_at: self.updated_at.clone(),
            plugin_name: clone_opt(&self.plugin_name),
        }
    }
}

/// One entry of a PROJECT skill lock (`skills-lock.json`). `source_url` is
/// aghub-only: an npx-written entry has none.
#[derive(Debug)]
pub struct LocalSkillLockEntry {
    pub source_url: Option<String>,
    pub ref_commit: Option<String>,
    pub source: String,
    pub ref_name: Option<String>,
    pub source_type: String,
    pub computed_hash: String,
    pub skill_path: Option<String>,
}

impl LocalSkillLockEntry {
    /// An exact copy.
    pub fn duplicate(&self) -> (r: Self)
        ensures
            r == *self,
    {
        LocalSkillLockEntry {
            source_url: clone_opt(&self.source_url),
            ref_commit: clone_opt(&self.ref_commit),
            source: self.source.clone(),
            ref_name: clone_opt(&self.ref_name),
            source_type: self.source_type.clone(),
            computed_hash: self.computed_hash.clone(),
            skill_path: clone_opt(&self.skill_path),
        }
    }
}

/// The global lock's `skills` table.
pub type GlobalLock = LockTable<SkillLockEntry>;

/// A project lock's `skills` table.
pub type LocalLock = LockTable<LocalSkillLockEntry>;

/// Both lock tables a scope can touch: the global one, and the project one of
/// the operation's project root (empty when there is no root).
pub struct Locks {
    pub global: GlobalLock,
    pub project: LocalLock,
}

impl Locks {
    pub open spec fn wf(&self) -> bool {
        self.global.wf() && self.project.wf()
    }
}

/// An installed skill as an agent's config or skills dir reports it.
#[derive(Debug)]
pub struct Skill {
    pub name: String,
    pub description: Option<String>,
    /// The `SKILL.md` this skill was read from (may start with `~/`).
    pub source_path: Option<String>,
    /// The `SKILL.md` of the Master a Referrer resolves to, when it is a link.
    pub canonical_path: Option<String>,
    pub enabled: bool,
    pub author: Option<String>,
    pub version: Option<String>,
    /// The tools the skill may use (`allowed-tools`).
    pub tools: Vec<String>,
    /// The body of its `SKILL.md`, when it was loaded or is being written.
    pub content: Option<String>,
}

/// Two skills hold the same values.
pub open spec fn same_skill(a: Skill, b: Skill) -> bool {
    &&& a.name == b.name
    &&& a.description == b.description
    &&& a.source_path == b.source_path
    &&& a.canonical_path == b.canonical_path
    &&& a.enabled == b.enabled
    &&& a.author == b.author
    &&& a.version == b.version
    &&& a.tools@ == b.tools@
    &&& a.content == b.content
}

/// A copy of a list of strings.
pub fn clone_strings(v: &Vec<String>) -> (r: Vec<String>)
    ensures
        r@ == v@,
{
    let mut out: Vec<String> = Vec::new();
    let mut i: usize = 0;
    while i < v.len()
        invariant
            i <= v.len(),
            out@ == v@.take(i as int),
        decreases v.len() - i,
    {
        out.push(v[i].clone());
        assert(out@ =~= v@.take(i + 1));
        i = i + 1;
    }
    assert(v@.take(v.len() as int) =~= v@);
    out
}

impl Skill {
    /// A skill with only its name set.
    pub fn new(name: &str) -> (s: Self)
        ensures
            s.name@ == name@,
            s.description is None,
            s.source_path is None,
            s.canonical_path is None,
            s.enabled,
            s.author is None,
            s.version is None,
            s.tools@.len() == 0,
            s.content is None,
    {
        Skill {
            name: crate::text::owned(name),
            description: None,
            source_path: None,
            canonical_path: None,
            enabled: true,
            author: None,
            version: None,
            tools: Vec::new(),
            content: None,
        }
    }

    /// An exact copy.
    pub fn duplicate(&self) -> (r: Self)
        ensures
            same_skill(r, *self),
    {
        Skill {
            name: self.name.clone(),
            description: clone_opt(&self.description),
            source_path: clone_opt(&self.source_path),
            canonical_path: clone_opt(&self.canonical_path),
            enabled: self.enabled,
            author: clone_opt(&self.author),
            version: clone_opt(&self.version),
            tools: clone_strings(&self.tools),
            content: clone_opt(&self.content),
        }
    }
}

/// The skills one agent holds, as loaded from its config and skills dirs.
#[derive(Debug)]
pub struct AgentResources {
    pub agent_id: String,
    pub skills: Vec<Skill>,
}

} // verus!
