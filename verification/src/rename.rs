//! The transactional skill rename: install the new name, remove the old name,
//! and move the lock entry, as one transaction that rolls back on any failure.
//!
//! The fetch, the filesystem work and the lock file writes are the caller's;
//! this module decides. [`rename_step`] is the transaction itself, a step
//! function from the stage reached and what was just observed to the next
//! stage and what to do; the lock-entry moves act on the in-memory [`Locks`].

use vstd::prelude::*;

use crate::lock::{global_identity, project_identity, quoted_message, EntryIdentity, MUTATION_LOCK_BUSY_CODE, SOURCE_CHANGED_DURING_FETCH_CODE};
use crate::install::{first_failed, first_failed_agent, AgentInstallResult, FetchedSkillInstallReport};
use crate::models::{clone_opt, opt_view, LocalSkillLockEntry, Locks, ResourceScope, Skill, SkillLockEntry};
use crate::paths::{join, join_spec, universal_canonical_dir, agents_skills_under};
use crate::removal::vs;
use crate::table::LockTable;
use crate::sanitize::{sanitize_name, sanitized};
use crate::text::{owned, str_eq};

verus! {

/// Machine code surfaced when a rename target already exists (lock entry or
/// on-disk dir) or the rename is degenerate (old and new sanitize to one dir).
pub const RENAME_TARGET_EXISTS_CODE: &'static str = "RENAME_TARGET_EXISTS";

/// Exactly one scope a rename targets: there is no `Both`, and a project
/// rename always carries its root.
#[derive(Debug)]
pub enum RenameScope {
    Global,
    Project { root: String },
}

impl RenameScope {
    /// The resource scope this rename scope stands for.
    pub fn resource_scope(&self) -> (r: ResourceScope)
        ensures
            r == (match self {
                RenameScope::Global => ResourceScope::GlobalOnly,
                RenameScope::Project { .. } => ResourceScope::ProjectOnly,
            }),
    {
        match self {
            RenameScope::Global => ResourceScope::GlobalOnly,
            RenameScope::Project { .. } => ResourceScope::ProjectOnly,
        }
    }

    /// The project root, for a project rename.
    pub fn project_root(&self) -> (r: Option<&str>)
        ensures
            match self {
                RenameScope::Global => r is None,
                RenameScope::Project { root } => r matches Some(x) && x@ == root@,
            },
    {
        match self {
            RenameScope::Global => None,
            RenameScope::Project { root } => Some(root.as_str()),
        }
    }
}

/// Source coordinates of the old-name lock entry plus what re-installing
/// under the new name needs. `captured` is the entry's identity as read before
/// the fetch; the caller may override `ref_name` and `skill_path`, never it.
#[derive(Debug)]
pub struct RenameLockSource {
    pub source: String,
    pub source_type: String,
    pub source_url: String,
    pub ref_name: Option<String>,
    pub skill_path: String,
    pub captured: EntryIdentity,
}

/// What the caller learned by fetching.
pub struct FetchedRename<'a> {
    /// Root of the fetched source tree.
    pub repo_root: &'a str,
    /// The fetched commit id, written to the new lock entry's `ref_commit`.
    pub oid: &'a str,
    /// The (effective) source coordinates for the new lock entry.
    pub source: &'a RenameLockSource,
}

/// The rename to perform.
pub struct RenameRequest<'a> {
    pub old_name: &'a str,
    pub new_name: &'a str,
    pub scope: RenameScope,
}

/// The result of a committed rename.
#[derive(Debug)]
pub struct RenameSuccess {
    pub installed_hash: String,
    pub paths: Vec<String>,
}

/// Rename failures, with a canonical message and machine code each.
#[derive(Debug)]
pub enum RenameError {
    /// The old name is not in the lock, or its entry has no `skillPath`.
    NotLocked(String),
    /// The old name (carried) is locked but no installed copy was found.
    NoInstalledCopy(String),
    /// `old_name` and `new_name` sanitize to the same on-disk directory.
    SameSanitizedName,
    /// The new name (carried) already exists (lock entry or on-disk dir).
    TargetExists(String),
    /// The locked `skillPath` was not found in the fetched tree.
    SkillPathNotFound,
    /// The fetched `SKILL.md` declares a name other than `new_name`.
    NameMismatch { declared: String, expected: String },
    /// The fetched `SKILL.md` failed to parse.
    ParseFailed(String),
    /// The interprocess mutation lock could not be taken (nothing was mutated).
    Locked(String),
    /// The lock entry changed while this rename was fetching (nothing was
    /// mutated).
    StaleFetch(String),
    /// The pre-mutation snapshot failed (nothing was mutated).
    Snapshot(String),
    /// Installing the new name failed (rolled back).
    InstallFailed(String),
    /// Removing the old name failed (rolled back).
    RemovalFailed(String),
    /// Removing the old lock entry failed (rolled back).
    LockRemovalFailed(String),
}

pub open spec fn rename_error_code(e: RenameError) -> Option<Seq<char>> {
    match e {
        RenameError::SameSanitizedName | RenameError::TargetExists(_) => Some(
            RENAME_TARGET_EXISTS_CODE@,
        ),
        RenameError::Locked(_) => Some(MUTATION_LOCK_BUSY_CODE@),
        RenameError::StaleFetch(_) => Some(SOURCE_CHANGED_DURING_FETCH_CODE@),
        _ => None,
    }
}

pub open spec fn rename_error_message(e: RenameError) -> Seq<char> {
    match e {
        RenameError::NotLocked(m) => m@,
        RenameError::NoInstalledCopy(old) => "'"@ + old@ + "' is locked but no installed copy was found"@,
        RenameError::SameSanitizedName => "old_name and new_name resolve to the same on-disk skill directory; choose a distinct rename target"@,
        RenameError::TargetExists(new) => "A skill named '"@ + new@
            + "' already exists in this scope (lock entry or on-disk directory); pick a rename target that does not already exist"@,
        RenameError::SkillPathNotFound => "Locked skillPath was not found in fetched source"@,
        RenameError::NameMismatch { declared, expected } => "Fetched SKILL.md declares name '"@
            + declared@ + "', expected '"@ + expected@
            + "'. Verify the new_name matches the upstream source."@,
        RenameError::ParseFailed(m) => "Failed to parse fetched skill: "@ + m@,
        RenameError::Locked(m) => m@,
        RenameError::StaleFetch(m) => m@,
        RenameError::Snapshot(m) => m@,
        RenameError::InstallFailed(m) => "Failed to install renamed skill: "@ + m@,
        RenameError::RemovalFailed(m) => m@,
        RenameError::LockRemovalFailed(m) => m@,
    }
}

/// `prefix` followed by `s`.
fn prefixed(prefix: &str, s: &str) -> (r: String)
    ensures
        r@ == prefix@ + s@,
{
    let r = quoted_message(prefix, s, "");
    proof {
        reveal_strlit("");
        assert(prefix@ + s@ + ""@ =~= prefix@ + s@);
    }
    r
}

impl RenameError {
    /// The machine code for surfaces that expose one: the target-exists code
    /// for a taken or degenerate target, and the retryable codes for a busy
    /// lock and a stale fetch.
    pub fn code(&self) -> (r: Option<&'static str>)
        ensures
            match rename_error_code(*self) {
                Some(c) => r matches Some(x) && x@ == c,
                None => r is None,
            },
    {
        match self {
            RenameError::SameSanitizedName | RenameError::TargetExists(_) => Some(
                RENAME_TARGET_EXISTS_CODE,
            ),
            RenameError::Locked(_) => Some(MUTATION_LOCK_BUSY_CODE),
            RenameError::StaleFetch(_) => Some(SOURCE_CHANGED_DURING_FETCH_CODE),
            _ => None,
        }
    }

    /// The canonical user-facing message, naming skills rather than paths.
    pub fn message(&self) -> (r: String)
        ensures
            r@ == rename_error_message(*self),
    {
        match self {
            RenameError::NotLocked(m) => m.clone(),
            RenameError::NoInstalledCopy(old) => quoted_message(
                "'",
                old.as_str(),
                "' is locked but no installed copy was found",
            ),
            RenameError::SameSanitizedName => owned(
                "old_name and new_name resolve to the same on-disk skill directory; choose a distinct rename target",
            ),
            RenameError::TargetExists(new) => quoted_message(
                "A skill named '",
                new.as_str(),
                "' already exists in this scope (lock entry or on-disk directory); pick a rename target that does not already exist",
            ),
            RenameError::SkillPathNotFound => owned("Locked skillPath was not found in fetched source"),
            RenameError::NameMismatch { declared, expected } => {
                let head = quoted_message(
                    "Fetched SKILL.md declares name '",
                    declared.as_str(),
                    "', expected '",
                );
                quoted_message(
                    head.as_str(),
                    expected.as_str(),
                    "'. Verify the new_name matches the upstream source.",
                )
            },
            RenameError::ParseFailed(m) => prefixed("Failed to parse fetched skill: ", m.as_str()),
            RenameError::Locked(m) => m.clone(),
            RenameError::StaleFetch(m) => m.clone(),
            RenameError::Snapshot(m) => m.clone(),
            RenameError::InstallFailed(m) => prefixed("Failed to install renamed skill: ", m.as_str()),
            RenameError::RemovalFailed(m) => m.clone(),
            RenameError::LockRemovalFailed(m) => m.clone(),
        }
    }
}

/// The fetch coordinates a rename reads off the old-name entry, as
/// `rename_source_from_lock` reports them for `scope`.
pub open spec fn source_matches_entry_global(s: RenameLockSource, e: SkillLockEntry, sp: String) -> bool {
    &&& s.source == e.source
    &&& s.source_type == e.source_type
    &&& s.source_url == e.source_url
    &&& s.ref_name == e.ref_name
    &&& s.skill_path == sp
    &&& s.captured.view() == global_identity(e)
}

pub open spec fn source_matches_entry_project(s: RenameLockSource, e: LocalSkillLockEntry, sp: String) -> bool {
    &&& s.source == e.source
    &&& s.source_type == e.source_type
    &&& s.source_url == match e.source_url {
        Some(u) => u,
        None => e.source,
    }
    &&& s.ref_name == e.ref_name
    &&& s.skill_path == sp
    &&& s.captured.view() == project_identity(e)
}

/// Read the old-name lock entry for the fetch coordinates (before the fetch).
/// A project entry's recorded clone URL is preferred, falling back to its
/// `source`. The identity is captured from the same read.
pub fn rename_source_from_lock(old_name: &str, scope: &RenameScope, locks: &Locks) -> (r: Result<
    RenameLockSource,
    RenameError,
>)
    requires
        locks.wf(),
    ensures
        match scope {
            RenameScope::Global => match locks.global.lookup(old_name@) {
                None => (r matches Err(RenameError::NotLocked(m)) && m@
                    == "Skill is not in global lock"@),
                Some(e) => match e.skill_path {
                    None => (r matches Err(RenameError::NotLocked(m)) && m@
                        == "Locked skill has no skillPath"@),
                    Some(sp) => (r matches Ok(s) && source_matches_entry_global(s, e, sp)),
                },
            },
            RenameScope::Project { .. } => match locks.project.lookup(old_name@) {
                None => (r matches Err(RenameError::NotLocked(m)) && m@
                    == "Skill is not in project lock"@),
                Some(e) => match e.skill_path {
                    None => (r matches Err(RenameError::NotLocked(m)) && m@
                        == "Locked skill has no skillPath"@),
                    Some(sp) => (r matches Ok(s) && source_matches_entry_project(s, e, sp)),
                },
            },
        },
{
    match scope {
        RenameScope::Global => {
            let entry = match locks.global.get(old_name) {
                None => {
                    return Err(RenameError::NotLocked(owned("Skill is not in global lock")));
                },
                Some(e) => e,
            };
            let skill_path = match &entry.skill_path {
                None => {
                    return Err(RenameError::NotLocked(owned("Locked skill has no skillPath")));
                },
                Some(p) => p.clone(),
            };
            let captured = EntryIdentity::of_global_entry(entry);
            Ok(
                RenameLockSource {
                    source: entry.source.clone(),
                    source_type: entry.source_type.clone(),
                    source_url: entry.source_url.clone(),
                    ref_name: clone_opt(&entry.ref_name),
                    skill_path,
                    captured,
                },
            )
        },
        RenameScope::Project { .. } => {
            let entry = match locks.project.get(old_name) {
                None => {
                    return Err(RenameError::NotLocked(owned("Skill is not in project lock")));
                },
                Some(e) => e,
            };
            let skill_path = match &entry.skill_path {
                None => {
                    return Err(RenameError::NotLocked(owned("Locked skill has no skillPath")));
                },
                Some(p) => p.clone(),
            };
            let captured = EntryIdentity::of_project_entry(entry);
            let source_url = match &entry.source_url {
                Some(u) => u.clone(),
                None => entry.source.clone(),
            };
            Ok(
                RenameLockSource {
                    source: entry.source.clone(),
                    source_type: entry.source_type.clone(),
                    source_url,
                    ref_name: clone_opt(&entry.ref_name),
                    skill_path,
                    captured,
                },
            )
        },
    }
}

/// Refuse a degenerate rename whose old and new names sanitize to the same
/// on-disk directory: the install would write the very dir the removal then
/// deletes.
pub fn ensure_distinct_names(old_name: &str, new_name: &str) -> (r: Result<(), RenameError>)
    ensures
        r is Ok <==> sanitized(old_name@) != sanitized(new_name@),
        r is Err ==> (r matches Err(RenameError::SameSanitizedName)),
{
    let a = sanitize_name(old_name);
    let b = sanitize_name(new_name);
    if str_eq(a.as_str(), b.as_str()) {
        Err(RenameError::SameSanitizedName)
    } else {
        Ok(())
    }
}

/// Whether `new_name` already has a lock entry in the rename's scope.
pub open spec fn new_name_locked_spec(new_name: Seq<char>, scope: ResourceScope, has_root: bool, locks: Locks) -> bool {
    match scope {
        ResourceScope::GlobalOnly => locks.global.has(new_name),
        ResourceScope::ProjectOnly => has_root && locks.project.has(new_name),
        ResourceScope::Both => false,
    }
}

pub fn new_name_locked(new_name: &str, scope: ResourceScope, project_root: Option<&str>, locks: &Locks) -> (r:
    bool)
    requires
        locks.wf(),
    ensures
        r == new_name_locked_spec(new_name@, scope, project_root is Some, *locks),
{
    match scope {
        ResourceScope::GlobalOnly => locks.global.contains_key(new_name),
        ResourceScope::ProjectOnly => match project_root {
            Some(_) => locks.project.contains_key(new_name),
            None => false,
        },
        ResourceScope::Both => false,
    }
}

/// The Master store a rename's new name would land in: the project's for a
/// project rename, the home one otherwise.
pub fn rename_master_dir(scope: ResourceScope, project_root: Option<&str>) -> (r: Option<String>)
    ensures
        scope == ResourceScope::ProjectOnly && project_root is Some ==> (r matches Some(m) && m@
            == agents_skills_under(project_root->Some_0@)),
{
    let canonical_root = if scope == ResourceScope::ProjectOnly {
        project_root
    } else {
        None
    };
    universal_canonical_dir(canonical_root)
}

/// Where the new name would sit on disk: under each agent dir, then under the
/// Master store when there is one.
pub open spec fn target_paths_spec(new_name: Seq<char>, agent_dirs: Seq<Seq<char>>, master: Option<Seq<char>>) -> Seq<
    Seq<char>,
> {
    let safe = sanitized(new_name);
    let per_agent = agent_dirs.map_values(|d: Seq<char>| join_spec(d, safe));
    match master {
        Some(m) => per_agent.push(join_spec(m, safe)),
        None => per_agent,
    }
}

pub fn rename_target_paths(new_name: &str, agent_dirs: &Vec<String>, master: Option<&str>) -> (out: Vec<
    String,
>)
    ensures
        vs(out@) == target_paths_spec(
            new_name@,
            vs(agent_dirs@),
            match master {
                Some(m) => Some(m@),
                None => None,
            },
        ),
{
    let safe = sanitize_name(new_name);
    let ghost sv = safe@;
    let mut out: Vec<String> = Vec::new();
    let mut i: usize = 0;
    while i < agent_dirs.len()
        invariant
            i <= agent_dirs.len(),
            sv == safe@,
            sv == sanitized(new_name@),
            vs(out@) == vs(agent_dirs@).take(i as int).map_values(|d: Seq<char>| join_spec(d, sv)),
        decreases agent_dirs.len() - i,
    {
        let ghost before = vs(out@);
        let p = join(agent_dirs[i].as_str(), safe.as_str());
        let ghost pv = p@;
        out.push(p);
        assert(vs(out@) =~= before.push(pv));
        assert(vs(agent_dirs@).take(i + 1) =~= vs(agent_dirs@).take(i as int).push(agent_dirs@[i as int]@));
        assert(vs(out@) =~= vs(agent_dirs@).take(i + 1).map_values(|d: Seq<char>| join_spec(d, sv)));
        i = i + 1;
    }
    assert(vs(agent_dirs@).take(agent_dirs.len() as int) =~= vs(agent_dirs@));
    match master {
        Some(m) => {
            let ghost before = vs(out@);
            let p = join(m, safe.as_str());
            out.push(p);
            assert(vs(out@) =~= before.push(join_spec(m@, sv)));
        },
        None => {},
    }
    out
}

/// Whether the new name is taken: a lock entry for it in scope, or anything
/// at one of its target paths (`on_disk[i]` tells whether the i-th path of
/// [`rename_target_paths`] exists).
pub fn new_name_exists_in_scope(
    new_name: &str,
    scope: ResourceScope,
    project_root: Option<&str>,
    locks: &Locks,
    on_disk: &Vec<bool>,
) -> (r: bool)
    requires
        locks.wf(),
    ensures
        r == (new_name_locked_spec(new_name@, scope, project_root is Some, *locks) || on_disk@.contains(
            true,
        )),
{
    if new_name_locked(new_name, scope, project_root, locks) {
        return true;
    }
    let mut i: usize = 0;
    while i < on_disk.len()
        invariant
            i <= on_disk.len(),
            forall|j: int| 0 <= j < i ==> !on_disk@[j],
        decreases on_disk.len() - i,
    {
        if on_disk[i] {
            assert(on_disk@[i as int]);
            return true;
        }
        i = i + 1;
    }
    false
}

/// `after` is `before` without an entry for `name`, every other key as it was.
pub open spec fn table_dropped<E>(before: LockTable<E>, after: LockTable<E>, name: Seq<char>) -> bool {
    &&& after.lookup(name) is None
    &&& forall|k: Seq<char>| k != name ==> #[trigger] after.lookup(k) == before.lookup(k)
}

/// `after` is `before` with `e` stored under `name`, every other key as it was.
pub open spec fn table_put<E>(before: LockTable<E>, after: LockTable<E>, name: Seq<char>, e: E) -> bool {
    &&& after.lookup(name) == Some(e)
    &&& forall|k: Seq<char>| k != name ==> #[trigger] after.lookup(k) == before.lookup(k)
}

/// The rename scope's table lost `name`; the other table is untouched.
pub open spec fn scope_dropped(scope: RenameScope, before: Locks, after: Locks, name: Seq<char>) -> bool {
    match scope {
        RenameScope::Global => table_dropped(before.global, after.global, name) && after.project
            == before.project,
        RenameScope::Project { .. } => table_dropped(before.project, after.project, name)
            && after.global == before.global,
    }
}

/// The rename scope's table got its entry back (when there is one for that
/// scope); the other table is untouched.
pub open spec fn scope_restored(
    scope: RenameScope,
    before: Locks,
    after: Locks,
    name: Seq<char>,
    global_entry: Option<SkillLockEntry>,
    local_entry: Option<LocalSkillLockEntry>,
) -> bool {
    match scope {
        RenameScope::Global => after.project == before.project && match global_entry {
            None => after.global == before.global,
            Some(e) => table_put(before.global, after.global, name, e),
        },
        RenameScope::Project { .. } => after.global == before.global && match local_entry {
            None => after.project == before.project,
            Some(e) => table_put(before.project, after.project, name, e),
        },
    }
}

/// Dropping a lock entry and then putting back the entry it held leaves every
/// key of the table as it was: the rollback of a lock removal restores it.
pub proof fn lemma_put_back_undoes_drop<E>(
    t0: LockTable<E>,
    t1: LockTable<E>,
    t2: LockTable<E>,
    name: Seq<char>,
    e: E,
)
    requires
        t0.lookup(name) == Some(e),
        table_dropped(t0, t1, name),
        table_put(t1, t2, name, e),
    ensures
        forall|k: Seq<char>| #[trigger] t2.lookup(k) == t0.lookup(k),
{
    assert forall|k: Seq<char>| #[trigger] t2.lookup(k) == t0.lookup(k) by {
        if k != name {
            assert(t2.lookup(k) == t1.lookup(k));
        }
    }
}

/// Putting an entry under a free key and then dropping that key leaves every
/// key of the table as it was: undoing a created lock entry.
pub proof fn lemma_drop_undoes_put<E>(t0: LockTable<E>, t1: LockTable<E>, t2: LockTable<E>, name: Seq<char>, e: E)
    requires
        t0.lookup(name) is None,
        table_put(t0, t1, name, e),
        table_dropped(t1, t2, name),
    ensures
        forall|k: Seq<char>| #[trigger] t2.lookup(k) == t0.lookup(k),
{
    assert forall|k: Seq<char>| #[trigger] t2.lookup(k) == t0.lookup(k) by {
        if k != name {
            assert(t2.lookup(k) == t1.lookup(k));
        }
    }
}

/// Drop `name`'s entry from the rename scope's lock.
pub fn remove_lock_entry(name: &str, scope: &RenameScope, locks: &mut Locks)
    requires
        old(locks).wf(),
    ensures
        final(locks).wf(),
        scope_dropped(*scope, *old(locks), *final(locks), name@),
{
    match scope {
        RenameScope::Global => {
            let _ = locks.global.remove(name);
        },
        RenameScope::Project { .. } => {
            let _ = locks.project.remove(name);
        },
    }
}

/// Put back the entry `name` held before (the global one for a global
/// rename, the project one for a project rename); without one, nothing.
pub fn restore_lock_entry(
    name: &str,
    scope: &RenameScope,
    global_entry: Option<&SkillLockEntry>,
    local_entry: Option<&LocalSkillLockEntry>,
    locks: &mut Locks,
)
    requires
        old(locks).wf(),
    ensures
        final(locks).wf(),
        scope_restored(
            *scope,
            *old(locks),
            *final(locks),
            name@,
            match global_entry {
                Some(e) => Some(*e),
                None => None,
            },
            match local_entry {
                Some(e) => Some(*e),
                None => None,
            },
        ),
{
    match scope {
        RenameScope::Global => match global_entry {
            None => {},
            Some(e) => {
                let _ = locks.global.insert(owned(name), e.duplicate());
            },
        },
        RenameScope::Project { .. } => match local_entry {
            None => {},
            Some(e) => {
                let _ = locks.project.insert(owned(name), e.duplicate());
            },
        },
    }
}

/// How far a rename transaction has come; each stage waits for one
/// observation or outcome.
#[derive(Debug, Clone, Copy, PartialEq, Eq, Structural)]
pub enum RenameStage {
    /// Taking the interprocess mutation lock.
    Guard,
    /// Finding the agents that have the old name installed.
    Agents,
    /// Locating the locked skill path inside the fetched tree.
    SkillFile,
    /// Parsing the fetched `SKILL.md`.
    Parse,
    /// Checking that the new name is free.
    Target,
    /// Snapshotting the old name.
    Snapshot,
    /// Re-reading the old name's lock entry.
    OldLock,
    /// Comparing the entry against the one that was fetched.
    Unchanged,
    /// Installing the new name.
    Install,
    /// Removing the old name's dirs.
    Removal,
    /// Removing the old name's lock entry.
    LockRemoval,
    /// Over: committed or failed.
    Done,
}

/// What the caller observed or got back for the current stage.
#[derive(Debug)]
pub enum RenameEvent {
    /// The mutation lock was taken, or why not.
    Guard(Result<(), String>),
    /// How many target agents have the old name installed.
    Agents(usize),
    /// Whether the locked skill path resolved inside the fetched tree.
    SkillFile(bool),
    /// The name the fetched `SKILL.md` declares, or its parse error.
    Parsed(Result<String, String>),
    /// Whether the new name is taken (see [`new_name_exists_in_scope`]).
    Target(bool),
    /// The snapshot was taken, or why not.
    Snapshot(Result<(), String>),
    /// Whether the old name has an entry in the scope's lock.
    OldLocked(bool),
    /// The compare-after-fetch ([`EntryIdentity::ensure_unchanged`]).
    Unchanged(Result<(), String>),
    /// The install's per-agent outcome, or its error.
    Installed(Result<InstallOutcome, String>),
    /// How many old-name paths failed to be removed, or the removal's error.
    Removed(Result<usize, String>),
    /// The old lock entry was removed, or why not.
    LockRemoved(Result<(), String>),
}

/// The part of an install report the transaction decides on.
#[derive(Debug)]
pub struct InstallOutcome {
    /// How many target rows the report has.
    pub rows: usize,
    /// The first agent whose install reported an error.
    pub failed_agent: Option<String>,
}

/// What to undo before failing.
#[derive(Debug, Clone, Copy, PartialEq, Eq, Structural)]
pub enum Rollback {
    /// Nothing was mutated.
    Nothing,
    /// Only the new-name artifacts (the old name is still intact).
    NewName,
    /// The new-name artifacts, then the old name's dirs and lock entry.
    Everything,
}

/// What the caller does next.
#[derive(Debug)]
pub enum RenameAction {
    /// Observe or perform the next stage.
    Continue,
    /// Roll back as told, then report the error.
    Fail { rollback: Rollback, error: RenameError },
    /// The rename is committed.
    Commit,
}

/// Which stage an event answers.
pub open spec fn answers(stage: RenameStage, event: RenameEvent) -> bool {
    match event {
        RenameEvent::Guard(_) => stage == RenameStage::Guard,
        RenameEvent::Agents(_) => stage == RenameStage::Agents,
        RenameEvent::SkillFile(_) => stage == RenameStage::SkillFile,
        RenameEvent::Parsed(_) => stage == RenameStage::Parse,
        RenameEvent::Target(_) => stage == RenameStage::Target,
        RenameEvent::Snapshot(_) => stage == RenameStage::Snapshot,
        RenameEvent::OldLocked(_) => stage == RenameStage::OldLock,
        RenameEvent::Unchanged(_) => stage == RenameStage::Unchanged,
        RenameEvent::Installed(_) => stage == RenameStage::Install,
        RenameEvent::Removed(_) => stage == RenameStage::Removal,
        RenameEvent::LockRemoved(_) => stage == RenameStage::LockRemoval,
    }
}

pub open spec fn scope_label(project: bool) -> Seq<char> {
    if project {
        "project"@
    } else {
        "global"@
    }
}

pub open spec fn not_lock_managed_message(old: Seq<char>, project: bool) -> Seq<char> {
    "'"@ + old + "' is not in the "@ + scope_label(project)
        + " lock; refusing to rename a skill that is not lock-managed"@
}

/// The transition table of the rename transaction.
pub open spec fn rename_transition(
    old: Seq<char>,
    new: Seq<char>,
    project: bool,
    event: RenameEvent,
    next: RenameStage,
    action: RenameAction,
) -> bool {
    let done = next == RenameStage::Done;
    let go = |s: RenameStage| next == s && action is Continue;
    match event {
        RenameEvent::Guard(Err(m)) => done && action == (RenameAction::Fail {
            rollback: Rollback::Nothing,
            error: RenameError::Locked(m),
        }),
        RenameEvent::Guard(Ok(_)) => if sanitized(old) == sanitized(new) {
            done && action == (RenameAction::Fail {
                rollback: Rollback::Nothing,
                error: RenameError::SameSanitizedName,
            })
        } else {
            go(RenameStage::Agents)
        },
        RenameEvent::Agents(n) => if n == 0 {
            done && (action matches RenameAction::Fail {
                rollback: Rollback::Nothing,
                error: RenameError::NoInstalledCopy(o),
            } && o@ == old)
        } else {
            go(RenameStage::SkillFile)
        },
        RenameEvent::SkillFile(found) => if !found {
            done && action == (RenameAction::Fail {
                rollback: Rollback::Nothing,
                error: RenameError::SkillPathNotFound,
            })
        } else {
            go(RenameStage::Parse)
        },
        RenameEvent::Parsed(Err(e)) => done && action == (RenameAction::Fail {
            rollback: Rollback::Nothing,
            error: RenameError::ParseFailed(e),
        }),
        RenameEvent::Parsed(Ok(d)) => if d@ != new {
            done && (action matches RenameAction::Fail {
                rollback: Rollback::Nothing,
                error: RenameError::NameMismatch { declared, expected },
            } && declared == d && expected@ == new)
        } else {
            go(RenameStage::Target)
        },
        RenameEvent::Target(taken) => if taken {
            done && (action matches RenameAction::Fail {
                rollback: Rollback::Nothing,
                error: RenameError::TargetExists(n),
            } && n@ == new)
        } else {
            go(RenameStage::Snapshot)
        },
        RenameEvent::Snapshot(Err(e)) => done && action == (RenameAction::Fail {
            rollback: Rollback::Nothing,
            error: RenameError::Snapshot(e),
        }),
        RenameEvent::Snapshot(Ok(_)) => go(RenameStage::OldLock),
        RenameEvent::OldLocked(locked) => if !locked {
            done && (action matches RenameAction::Fail {
                rollback: Rollback::Nothing,
                error: RenameError::NotLocked(m),
            } && m@ == not_lock_managed_message(old, project))
        } else {
            go(RenameStage::Unchanged)
        },
        RenameEvent::Unchanged(Err(e)) => done && action == (RenameAction::Fail {
            rollback: Rollback::Nothing,
            error: RenameError::StaleFetch(e),
        }),
        RenameEvent::Unchanged(Ok(_)) => go(RenameStage::Install),
        RenameEvent::Installed(Err(e)) => done && action == (RenameAction::Fail {
            rollback: Rollback::NewName,
            error: RenameError::InstallFailed(e),
        }),
        RenameEvent::Installed(Ok(o)) => match o.failed_agent {
            Some(a) => done && (action matches RenameAction::Fail {
                rollback: Rollback::NewName,
                error: RenameError::InstallFailed(m),
            } && m@ == "agent '"@ + a@ + "' failed to install"@),
            None => if o.rows == 0 {
                done && (action matches RenameAction::Fail {
                    rollback: Rollback::NewName,
                    error: RenameError::InstallFailed(m),
                } && m@ == "no agent received the skill"@)
            } else {
                go(RenameStage::Removal)
            },
        },
        RenameEvent::Removed(Err(e)) => done && (action matches RenameAction::Fail {
            rollback: Rollback::Everything,
            error: RenameError::RemovalFailed(m),
        } && m@ == "Failed to remove old skill '"@ + old + "': "@ + e@),
        RenameEvent::Removed(Ok(failed)) => if failed > 0 {
            done && (action matches RenameAction::Fail {
                rollback: Rollback::Everything,
                error: RenameError::RemovalFailed(m),
            } && m@ == "Partial removal failure removing old skill '"@ + old + "'"@)
        } else {
            go(RenameStage::LockRemoval)
        },
        RenameEvent::LockRemoved(Err(e)) => done && (action matches RenameAction::Fail {
            rollback: Rollback::Everything,
            error: RenameError::LockRemovalFailed(m),
        } && m@ == "Failed to remove old lock entry '"@ + old + "': "@ + e@),
        RenameEvent::LockRemoved(Ok(_)) => done && action is Commit,
    }
}

fn fail(rollback: Rollback, error: RenameError) -> (r: (RenameStage, RenameAction))
    ensures
        r == (RenameStage::Done, RenameAction::Fail { rollback, error }),
{
    (RenameStage::Done, RenameAction::Fail { rollback, error })
}

/// One step of the rename transaction: guard, distinct names, installed
/// copies, fetched skill file, declared name, free target, snapshot, old lock
/// entry, compare-after-fetch, install, old-name removal, old lock entry
/// removal. A failure before the install mutates nothing and rolls nothing
/// back; an install failure undoes only the new name; a failure from the
/// old-name removal on rolls back everything.
pub fn rename_step(old_name: &str, new_name: &str, scope: &RenameScope, stage: RenameStage, event: RenameEvent) -> (r: (
    RenameStage,
    RenameAction,
))
    requires
        answers(stage, event),
    ensures
        rename_transition(old_name@, new_name@, scope is Project, event, r.0, r.1),
        (r.0 == RenameStage::Done) == !(r.1 is Continue),
        r.1 is Commit ==> stage == RenameStage::LockRemoval,
        (r.1 matches RenameAction::Fail { rollback, .. } && rollback == Rollback::Everything) ==> (
        stage == RenameStage::Removal || stage == RenameStage::LockRemoval),
        (r.1 matches RenameAction::Fail { rollback, .. } && rollback == Rollback::Nothing) ==> !(
        stage == RenameStage::Install || stage == RenameStage::Removal || stage
            == RenameStage::LockRemoval),
{
    match event {
        RenameEvent::Guard(Err(m)) => fail(Rollback::Nothing, RenameError::Locked(m)),
        RenameEvent::Guard(Ok(())) => match ensure_distinct_names(old_name, new_name) {
            Err(e) => fail(Rollback::Nothing, e),
            Ok(()) => (RenameStage::Agents, RenameAction::Continue),
        },
        RenameEvent::Agents(n) => if n == 0 {
            fail(Rollback::Nothing, RenameError::NoInstalledCopy(owned(old_name)))
        } else {
            (RenameStage::SkillFile, RenameAction::Continue)
        },
        RenameEvent::SkillFile(found) => if !found {
            fail(Rollback::Nothing, RenameError::SkillPathNotFound)
        } else {
            (RenameStage::Parse, RenameAction::Continue)
        },
        RenameEvent::Parsed(Err(e)) => fail(Rollback::Nothing, RenameError::ParseFailed(e)),
        RenameEvent::Parsed(Ok(declared)) => if !str_eq(declared.as_str(), new_name) {
            fail(
                Rollback::Nothing,
                RenameError::NameMismatch { declared, expected: owned(new_name) },
            )
        } else {
            (RenameStage::Target, RenameAction::Continue)
        },
        RenameEvent::Target(taken) => if taken {
            fail(Rollback::Nothing, RenameError::TargetExists(owned(new_name)))
        } else {
            (RenameStage::Snapshot, RenameAction::Continue)
        },
        RenameEvent::Snapshot(Err(e)) => fail(Rollback::Nothing, RenameError::Snapshot(e)),
        RenameEvent::Snapshot(Ok(())) => (RenameStage::OldLock, RenameAction::Continue),
        RenameEvent::OldLocked(locked) => if !locked {
            let label = match scope {
                RenameScope::Global => "global",
                RenameScope::Project { .. } => "project",
            };
            let head = quoted_message("'", old_name, "' is not in the ");
            let m = quoted_message(
                head.as_str(),
                label,
                " lock; refusing to rename a skill that is not lock-managed",
            );
            proof {
                reveal_strlit("global");
                reveal_strlit("project");
            }
            fail(Rollback::Nothing, RenameError::NotLocked(m))
        } else {
            (RenameStage::Unchanged, RenameAction::Continue)
        },
        RenameEvent::Unchanged(Err(e)) => fail(Rollback::Nothing, RenameError::StaleFetch(e)),
        RenameEvent::Unchanged(Ok(())) => (RenameStage::Install, RenameAction::Continue),
        RenameEvent::Installed(Err(e)) => fail(Rollback::NewName, RenameError::InstallFailed(e)),
        RenameEvent::Installed(Ok(o)) => match o.failed_agent {
            Some(a) => {
                let m = quoted_message("agent '", a.as_str(), "' failed to install");
                fail(Rollback::NewName, RenameError::InstallFailed(m))
            },
            None => if o.rows == 0 {
                fail(Rollback::NewName, RenameError::InstallFailed(owned("no agent received the skill")))
            } else {
                (RenameStage::Removal, RenameAction::Continue)
            },
        },
        RenameEvent::Removed(Err(e)) => {
            let head = quoted_message("Failed to remove old skill '", old_name, "': ");
            let m = quoted_message(head.as_str(), e.as_str(), "");
            proof {
                reveal_strlit("");
                assert(m@ =~= "Failed to remove old skill '"@ + old_name@ + "': "@ + e@);
            }
            fail(Rollback::Everything, RenameError::RemovalFailed(m))
        },
        RenameEvent::Removed(Ok(failed)) => if failed > 0 {
            let m = quoted_message("Partial removal failure removing old skill '", old_name, "'");
            fail(Rollback::Everything, RenameError::RemovalFailed(m))
        } else {
            (RenameStage::LockRemoval, RenameAction::Continue)
        },
        RenameEvent::LockRemoved(Err(e)) => {
            let head = quoted_message("Failed to remove old lock entry '", old_name, "': ");
            let m = quoted_message(head.as_str(), e.as_str(), "");
            proof {
                reveal_strlit("");
                assert(m@ =~= "Failed to remove old lock entry '"@ + old_name@ + "': "@ + e@);
            }
            fail(Rollback::Everything, RenameError::LockRemovalFailed(m))
        },
        RenameEvent::LockRemoved(Ok(())) => (RenameStage::Done, RenameAction::Commit),
    }
}

/// The part of an install report the transaction decides on.
pub fn install_outcome(report: &FetchedSkillInstallReport) -> (o: InstallOutcome)
    ensures
        o.rows == report.agent_results.len(),
        o.failed_agent == first_failed(report.agent_results@),
{
    InstallOutcome { rows: report.agent_results.len(), failed_agent: first_failed_agent(&report.agent_results) }
}

/// The result of a committed rename, from the install's report: the
/// fetched folder's hash the install recorded, and the new name's path in
/// the skills dir of every agent that received it. `dirs[i]` is the first
/// skills dir of the agent of row `i` at the rename's scope.
pub fn rename_success(report: &FetchedSkillInstallReport, dirs: &Vec<Option<String>>, new_name: &str) -> (r:
    RenameSuccess)
    requires
        dirs.len() == report.agent_results.len(),
    ensures
        r.installed_hash@ == report.installed_hash@,
        vs(r.paths@) == installed_paths_spec(report.agent_results@, dirs@, new_name@),
{
    let paths = installed_paths(&report.agent_results, dirs, new_name);
    RenameSuccess { installed_hash: report.installed_hash.clone(), paths }
}

/// What to do with the new name's lock entry when undoing an install.
#[derive(Debug, Clone, Copy, PartialEq, Eq, Structural)]
pub enum LockUndo {
    /// Drop it: this install created it (or nothing can be attributed).
    Remove,
    /// Put back the entry this install replaced.
    Restore,
    /// Leave it: this install wrote none.
    Keep,
}

/// How to undo the new-name artifacts of an install.
#[derive(Debug)]
pub struct NewNameRollback {
    /// Agent skills dirs whose new-name slot is cleared.
    pub dirs: Vec<String>,
    /// Whether the new-name Master is removed too.
    pub remove_master: bool,
    pub lock: LockUndo,
}

/// Undo only what the install created, read off its report: the referrer
/// dirs it created, the Master only when it wrote it, and its lock entry
/// dropped when created, restored when replaced. Without a report nothing can
/// be attributed, so every agent dir, the Master and the entry are cleared.
pub fn new_name_rollback(report: Option<&FetchedSkillInstallReport>, agent_dirs: &Vec<String>) -> (r:
    NewNameRollback)
    ensures
        match report {
            Some(rep) => {
                &&& r.dirs@ == rep.created_referrer_dirs@
                &&& r.remove_master == rep.wrote_master
                &&& r.lock == if rep.created_lock {
                    LockUndo::Remove
                } else if rep.wrote_lock {
                    LockUndo::Restore
                } else {
                    LockUndo::Keep
                }
            },
            None => {
                &&& r.dirs@ == agent_dirs@
                &&& r.remove_master
                &&& r.lock == LockUndo::Remove
            },
        },
{
    match report {
        Some(rep) => {
            let lock = if rep.created_lock {
                LockUndo::Remove
            } else if rep.wrote_lock {
                LockUndo::Restore
            } else {
                LockUndo::Keep
            };
            NewNameRollback { dirs: rep.created_referrer_dirs.clone(), remove_master: rep.wrote_master, lock }
        },
        None => NewNameRollback { dirs: agent_dirs.clone(), remove_master: true, lock: LockUndo::Remove },
    }
}

/// Apply a [`LockUndo`] for the new name to the rename scope's lock.
pub fn undo_new_name_lock(
    new_name: &str,
    scope: &RenameScope,
    undo: LockUndo,
    report: Option<&FetchedSkillInstallReport>,
    locks: &mut Locks,
)
    requires
        old(locks).wf(),
    ensures
        final(locks).wf(),
        undo == LockUndo::Keep ==> *final(locks) == *old(locks),
        undo == LockUndo::Remove ==> scope_dropped(*scope, *old(locks), *final(locks), new_name@),
        undo == LockUndo::Restore ==> match report {
            None => *final(locks) == *old(locks),
            Some(rep) => scope_restored(
                *scope,
                *old(locks),
                *final(locks),
                new_name@,
                rep.replaced_global_entry,
                rep.replaced_project_entry,
            ),
        },
{
    match undo {
        LockUndo::Keep => {},
        LockUndo::Remove => remove_lock_entry(new_name, scope, locks),
        LockUndo::Restore => match report {
            None => {},
            Some(rep) => restore_lock_entry(
                new_name,
                scope,
                rep.replaced_global_entry.as_ref(),
                rep.replaced_project_entry.as_ref(),
                locks,
            ),
        },
    }
}

/// Where each agent that received the new name now holds it: its first
/// skills dir (`skills_dirs[i]`, when it has one) joined with the new name.
pub open spec fn installed_paths_spec(
    rows: Seq<AgentInstallResult>,
    skills_dirs: Seq<Option<String>>,
    new_name: Seq<char>,
) -> Seq<Seq<char>>
    decreases rows.len(),
{
    if rows.len() == 0 {
        Seq::empty()
    } else {
        let rest = installed_paths_spec(rows.drop_last(), skills_dirs.drop_last(), new_name);
        if rows.last().installed && skills_dirs.last() is Some {
            rest.push(join_spec(skills_dirs.last()->Some_0@, new_name))
        } else {
            rest
        }
    }
}

pub fn installed_paths(rows: &Vec<AgentInstallResult>, skills_dirs: &Vec<Option<String>>, new_name: &str) -> (out:
    Vec<String>)
    requires
        skills_dirs.len() == rows.len(),
    ensures
        vs(out@) == installed_paths_spec(rows@, skills_dirs@, new_name@),
{
    let mut out: Vec<String> = Vec::new();
    let mut i: usize = 0;
    while i < rows.len()
        invariant
            i <= rows.len(),
            skills_dirs.len() == rows.len(),
            vs(out@) == installed_paths_spec(rows@.take(i as int), skills_dirs@.take(i as int), new_name@),
        decreases rows.len() - i,
    {
        assert(rows@.take(i + 1).drop_last() =~= rows@.take(i as int));
        assert(skills_dirs@.take(i + 1).drop_last() =~= skills_dirs@.take(i as int));
        if rows[i].installed {
            match &skills_dirs[i] {
                Some(d) => {
                    let ghost before = vs(out@);
                    let p = join(d.as_str(), new_name);
                    let ghost pv = p@;
                    out.push(p);
                    assert(vs(out@) =~= before.push(pv));
                },
                None => {},
            }
        }
        i = i + 1;
    }
    assert(rows@.take(rows.len() as int) =~= rows@);
    assert(skills_dirs@.take(rows.len() as int) =~= skills_dirs@);
    out
}

/// The old-name skill handed to removal planning: named `old_name`, read from
/// `<first agent dir>/<old_name>/SKILL.md` when there is an agent dir.
pub fn old_skill_for_removal(old_name: &str, agent_dirs: &Vec<String>) -> (s: Skill)
    ensures
        s.name@ == old_name@,
        s.description is None,
        s.canonical_path is None,
        s.enabled,
        agent_dirs.len() == 0 ==> s.source_path is None,
        agent_dirs.len() > 0 ==> (s.source_path matches Some(p) && p@ == join_spec(
            join_spec(agent_dirs@[0]@, old_name@),
            "SKILL.md"@,
        )),
{
    let mut s = Skill::new(old_name);
    if agent_dirs.len() > 0 {
        let d = join(agent_dirs[0].as_str(), old_name);
        s.source_path = Some(join(d.as_str(), "SKILL.md"));
    }
    s
}

/// The stages before the install: nothing has been written yet.
pub open spec fn before_install(s: RenameStage) -> bool {
    s == RenameStage::Guard || s == RenameStage::Agents || s == RenameStage::SkillFile || s == RenameStage::Parse
        || s == RenameStage::Target || s == RenameStage::Snapshot || s == RenameStage::OldLock || s
        == RenameStage::Unchanged
}

/// A rename that fails before its install leaves everything untouched: it
/// rolls nothing back, and no step before the install commits or leads
/// anywhere but to a later stage before the install, or to the install.
pub proof fn lemma_rename_fails_untouched_before_install(
    old: Seq<char>,
    new: Seq<char>,
    project: bool,
    stage: RenameStage,
    event: RenameEvent,
    next: RenameStage,
    action: RenameAction,
)
    requires
        before_install(stage),
        answers(stage, event),
        rename_transition(old, new, project, event, next, action),
    ensures
        action is Fail ==> action->rollback == Rollback::Nothing,
        !(action is Commit),
        action is Continue ==> before_install(next) || next == RenameStage::Install,
{
}

/// How far a failed rename rolls back: an install failure undoes only what
/// the install created under the new name (the old name is intact); a
/// failure while removing the old name's dirs or lock entry undoes
/// everything, restoring the old name.
pub proof fn lemma_rename_rollback_levels(
    old: Seq<char>,
    new: Seq<char>,
    project: bool,
    stage: RenameStage,
    event: RenameEvent,
    next: RenameStage,
    action: RenameAction,
)
    requires
        answers(stage, event),
        rename_transition(old, new, project, event, next, action),
        action is Fail,
    ensures
        stage == RenameStage::Install ==> action->rollback == Rollback::NewName,
        stage == RenameStage::Removal || stage == RenameStage::LockRemoval ==> action->rollback
            == Rollback::Everything,
        before_install(stage) ==> action->rollback == Rollback::Nothing,
{
}

/// Every failed check of a rename aborts it: the step ends, and the error
/// is the one the check gave. Before the install nothing is rolled back
/// (nothing was mutated; a failed snapshot aborts before the install); an
/// install failure undoes only the new name; a failure from the old-name
/// removal on undoes everything.
pub proof fn lemma_failed_step_aborts(
    old_name: Seq<char>,
    new_name: Seq<char>,
    project: bool,
    event: RenameEvent,
    next: RenameStage,
    action: RenameAction,
)
    requires
        rename_transition(old_name, new_name, project, event, next, action),
    ensures
        event matches RenameEvent::Snapshot(Err(e)) ==> next == RenameStage::Done && action == (RenameAction::Fail {
            rollback: Rollback::Nothing,
            error: RenameError::Snapshot(e),
        }),
        event matches RenameEvent::Guard(Err(m)) ==> next == RenameStage::Done && action == (RenameAction::Fail {
            rollback: Rollback::Nothing,
            error: RenameError::Locked(m),
        }),
        event matches RenameEvent::Parsed(Err(e)) ==> next == RenameStage::Done && action == (RenameAction::Fail {
            rollback: Rollback::Nothing,
            error: RenameError::ParseFailed(e),
        }),
        event matches RenameEvent::Unchanged(Err(e)) ==> next == RenameStage::Done && action == (RenameAction::Fail {
            rollback: Rollback::Nothing,
            error: RenameError::StaleFetch(e),
        }),
        event matches RenameEvent::Target(taken) ==> (taken <==> action is Fail),
        event matches RenameEvent::SkillFile(found) ==> (!found <==> action is Fail),
        event matches RenameEvent::Agents(n) ==> (n == 0 <==> action is Fail),
        event matches RenameEvent::OldLocked(locked) ==> (!locked <==> action is Fail),
        event matches RenameEvent::Installed(Err(e)) ==> next == RenameStage::Done && action == (RenameAction::Fail {
            rollback: Rollback::NewName,
            error: RenameError::InstallFailed(e),
        }),
        event matches RenameEvent::Removed(Err(_)) ==> next == RenameStage::Done && (action matches RenameAction::Fail {
            rollback: Rollback::Everything,
            ..
        }),
        event matches RenameEvent::LockRemoved(Err(_)) ==> next == RenameStage::Done && (
        action matches RenameAction::Fail { rollback: Rollback::Everything, .. }),
        action is Commit ==> event matches RenameEvent::LockRemoved(Ok(_)),
{
}

/// A rename is refused up front when the two names sanitize to the same
/// folder, when no agent has the old name installed, when the fetched
/// source has no skill file or declares another name than the new one, when
/// the new name is taken, and when the old name is not lock-managed; none
/// of these rolls anything back. A removal that failed on some paths rolls
/// everything back.
pub proof fn lemma_rename_refusals(
    old_name: Seq<char>,
    new_name: Seq<char>,
    project: bool,
    event: RenameEvent,
    next: RenameStage,
    action: RenameAction,
)
    requires
        rename_transition(old_name, new_name, project, event, next, action),
    ensures
        event matches RenameEvent::Guard(Ok(_)) ==> ((sanitized(old_name) == sanitized(new_name)) <==> action is Fail),
        (event is Guard && sanitized(old_name) == sanitized(new_name)) ==> next == RenameStage::Done && (
        action matches RenameAction::Fail { rollback: Rollback::Nothing, .. }),
        event matches RenameEvent::Parsed(Ok(d)) ==> ((d@ != new_name) <==> action is Fail),
        event matches RenameEvent::Parsed(Ok(d)) ==> (d@ != new_name ==> (action matches RenameAction::Fail {
            rollback: Rollback::Nothing,
            error: RenameError::NameMismatch { declared, expected },
        } && declared == d && expected@ == new_name)),
        (action matches RenameAction::Fail { rollback, .. } && rollback == Rollback::Nothing) ==> !(
        event is Installed || event is Removed || event is LockRemoved),
        event matches RenameEvent::Removed(Ok(failed)) ==> ((failed > 0) <==> action is Fail),
        (event matches RenameEvent::Removed(Ok(failed)) && failed > 0) ==> (action matches RenameAction::Fail {
            rollback: Rollback::Everything,
            ..
        }),
        (action is Continue) <==> (next != RenameStage::Done),
{
}

} // verus!
