//! What installing an already-fetched skill reports, and the decisions made
//! from those reports.

use vstd::prelude::*;

use crate::models::{clone_opt, opt_view, LocalSkillLockEntry, Locks, ResourceScope, SkillLockEntry};
use crate::remote::{remote_owner, remote_owner_from_url};
use crate::removal::{contains_str, vs};
use crate::classify::LinkNeed;
use crate::lock::quoted_message;
use crate::manager::ConfigError;
use crate::text::{owned, ascii_lower_seq, chars_eq, chars_of, lower_ascii, str_eq, trim_ws, trim_ws_chars};

verus! {

/// What happened for one target agent.
#[derive(Debug)]
pub struct AgentInstallResult {
    /// The agent's id.
    pub agent: String,
    /// The agent received the skill on this call (a fresh copy or a fresh
    /// link); `false` for a soft skip or a runtime link failure.
    pub installed: bool,
    pub error: Option<String>,
}

/// Result of installing a fetched skill and writing its lock entry.
#[derive(Debug)]
pub struct FetchedSkillInstallReport {
    /// Parsed (canonical) skill name.
    pub name: String,
    /// The lock entry was written, created or rewritten in place.
    pub wrote_lock: bool,
    /// The lock entry did not exist before this call (nothing was replaced).
    pub created_lock: bool,
    /// The global lock entry this call replaced, for a rollback to restore.
    pub replaced_global_entry: Option<SkillLockEntry>,
    /// The project lock entry this call replaced, for a rollback to restore.
    pub replaced_project_entry: Option<LocalSkillLockEntry>,
    /// This call claimed and wrote the canonical Master.
    pub wrote_master: bool,
    /// Agent skills dirs where this call created a fresh referrer.
    pub created_referrer_dirs: Vec<String>,
    /// Content hash of the fetched source folder.
    pub installed_hash: String,
    pub agent_results: Vec<AgentInstallResult>,
}

/// The first agent whose install reported an error, if any.
pub open spec fn first_failed_from(rows: Seq<AgentInstallResult>, i: int) -> Option<String>
    decreases rows.len() - i,
{
    if i >= rows.len() || i < 0 {
        None
    } else if rows[i].error is Some {
        Some(rows[i].agent)
    } else {
        first_failed_from(rows, i + 1)
    }
}

pub open spec fn first_failed(rows: Seq<AgentInstallResult>) -> Option<String> {
    first_failed_from(rows, 0)
}

/// The agent of the first row that reports an error.
pub fn first_failed_agent(rows: &Vec<AgentInstallResult>) -> (r: Option<String>)
    ensures
        r == first_failed(rows@),
{
    let mut i: usize = 0;
    while i < rows.len()
        invariant
            i <= rows.len(),
            first_failed_from(rows@, i as int) == first_failed(rows@),
        decreases rows.len() - i,
    {
        if rows[i].error.is_some() {
            return Some(rows[i].agent.clone());
        }
        i = i + 1;
    }
    None
}

/// The provenance an install records for a fetched skill.
#[derive(Debug)]
pub struct InstallLockSource {
    /// The normalized ownership key (`owner/repo` for GitHub).
    pub source: String,
    pub source_type: String,
    pub source_url: String,
    pub ref_name: Option<String>,
}

/// The owner and update coordinates an existing lock entry records.
#[derive(Debug)]
pub struct LockedSourceOwner {
    pub source: String,
    pub source_type: String,
    pub source_url: Option<String>,
    pub ref_name: Option<String>,
    pub skill_path: Option<String>,
    pub ref_commit: Option<String>,
}

pub open spec fn owner_of_global(e: SkillLockEntry) -> LockedSourceOwner {
    LockedSourceOwner {
        source: e.source,
        source_type: e.source_type,
        source_url: Some(e.source_url),
        ref_name: e.ref_name,
        skill_path: e.skill_path,
        ref_commit: e.ref_commit,
    }
}

pub open spec fn owner_of_local(e: LocalSkillLockEntry) -> LockedSourceOwner {
    LockedSourceOwner {
        source: e.source,
        source_type: e.source_type,
        source_url: e.source_url,
        ref_name: e.ref_name,
        skill_path: e.skill_path,
        ref_commit: e.ref_commit,
    }
}

/// The owner recorded for `name` in the scope's lock: the global entry, the
/// project entry when there is a root, never anything for `Both`.
pub open spec fn lock_owner(name: Seq<char>, scope: ResourceScope, has_root: bool, locks: Locks) -> Option<
    LockedSourceOwner,
> {
    match scope {
        ResourceScope::GlobalOnly => match locks.global.lookup(name) {
            Some(e) => Some(owner_of_global(e)),
            None => None,
        },
        ResourceScope::ProjectOnly => if has_root {
            match locks.project.lookup(name) {
                Some(e) => Some(owner_of_local(e)),
                None => None,
            }
        } else {
            None
        },
        ResourceScope::Both => None,
    }
}

pub fn skill_lock_source(skill_name: &str, scope: ResourceScope, project_root: Option<&str>, locks: &Locks) -> (r:
    Option<LockedSourceOwner>)
    requires
        locks.wf(),
    ensures
        r == lock_owner(skill_name@, scope, project_root is Some, *locks),
{
    match scope {
        ResourceScope::GlobalOnly => match locks.global.get(skill_name) {
            Some(e) => Some(
                LockedSourceOwner {
                    source: e.source.clone(),
                    source_type: e.source_type.clone(),
                    source_url: Some(e.source_url.clone()),
                    ref_name: clone_opt(&e.ref_name),
                    skill_path: clone_opt(&e.skill_path),
                    ref_commit: clone_opt(&e.ref_commit),
                },
            ),
            None => None,
        },
        ResourceScope::ProjectOnly => match project_root {
            None => None,
            Some(_) => match locks.project.get(skill_name) {
                Some(e) => Some(
                    LockedSourceOwner {
                        source: e.source.clone(),
                        source_type: e.source_type.clone(),
                        source_url: clone_opt(&e.source_url),
                        ref_name: clone_opt(&e.ref_name),
                        skill_path: clone_opt(&e.skill_path),
                        ref_commit: clone_opt(&e.ref_commit),
                    },
                ),
                None => None,
            },
        },
        ResourceScope::Both => None,
    }
}

/// Whether a request comes from the owner an existing entry records. The
/// provider type must match (ASCII case aside). A recorded, non-blank clone
/// URL is compared by canonical `host/path` where both sides normalize, else
/// literally (trimmed). Without one, only a GitHub or local entry can be
/// claimed, by the same `source`: a remote that lost its host fails closed.
pub open spec fn same_owner_spec(existing: LockedSourceOwner, requested: InstallLockSource) -> bool {
    &&& ascii_lower_seq(existing.source_type@) == ascii_lower_seq(requested.source_type@)
    &&& match existing.source_url {
        Some(u) if trim_ws(u@).len() > 0 => match (remote_owner(u@), remote_owner(requested.source_url@)) {
            (Some(a), Some(b)) => a == b,
            _ => trim_ws(u@) == trim_ws(requested.source_url@),
        },
        _ => (ascii_lower_seq(existing.source_type@) == "github"@ || ascii_lower_seq(existing.source_type@)
            == "local"@) && existing.source@ == requested.source@,
    }
}

pub fn same_source_owner(existing: &LockedSourceOwner, requested: &InstallLockSource) -> (r: bool)
    ensures
        r == same_owner_spec(*existing, *requested),
{
    let et = lower_ascii(&chars_of(existing.source_type.as_str()));
    let rt = lower_ascii(&chars_of(requested.source_type.as_str()));
    if !chars_eq(&et, &rt) {
        return false;
    }
    let recorded: Option<&String> = match &existing.source_url {
        Some(u) => {
            let t = trim_ws_chars(&chars_of(u.as_str()));
            if t.len() > 0 {
                Some(u)
            } else {
                None
            }
        },
        None => None,
    };
    match recorded {
        Some(u) => match (remote_owner_from_url(u.as_str()), remote_owner_from_url(requested.source_url.as_str())) {
            (Some(a), Some(b)) => str_eq(a.as_str(), b.as_str()),
            _ => {
                let a = trim_ws_chars(&chars_of(u.as_str()));
                let b = trim_ws_chars(&chars_of(requested.source_url.as_str()));
                chars_eq(&a, &b)
            },
        },
        None => {
            let github = chars_of("github");
            let local = chars_of("local");
            proof {
                reveal_strlit("github");
                reveal_strlit("local");
            }
            (chars_eq(&et, &github) || chars_eq(&et, &local)) && str_eq(
                existing.source.as_str(),
                requested.source.as_str(),
            )
        },
    }
}

/// A requested coordinate that is present and differs from the recorded one.
pub open spec fn differs(requested: Option<Seq<char>>, locked: Option<Seq<char>>) -> bool {
    requested is Some && locked != requested
}

/// Whether a same-owner entry's update coordinates disagree with the
/// request: a present requested ref or commit that differs, or a different
/// skill path. An omitted coordinate is never a difference.
pub open spec fn heal_spec(
    existing: LockedSourceOwner,
    requested_ref: Option<Seq<char>>,
    requested_skill_path: Seq<char>,
    requested_commit: Option<Seq<char>>,
) -> bool {
    ||| differs(requested_ref, opt_view(existing.ref_name))
    ||| differs(requested_commit, opt_view(existing.ref_commit))
    ||| opt_view(existing.skill_path) != Some(requested_skill_path)
}

fn opt_str_eq(a: &Option<String>, b: Option<&str>) -> (r: bool)
    ensures
        r == (opt_view(*a) == match b {
            Some(x) => Some(x@),
            None => None::<Seq<char>>,
        }),
{
    match (a, b) {
        (Some(x), Some(y)) => str_eq(x.as_str(), y),
        (None, None) => true,
        _ => false,
    }
}

pub open spec fn opt_s(o: Option<&str>) -> Option<Seq<char>> {
    match o {
        Some(x) => Some(x@),
        None => None,
    }
}

pub fn coordinates_need_heal(
    existing: &LockedSourceOwner,
    requested_ref: Option<&str>,
    requested_skill_path: &str,
    requested_commit: Option<&str>,
) -> (r: bool)
    ensures
        r == heal_spec(*existing, opt_s(requested_ref), requested_skill_path@, opt_s(requested_commit)),
{
    let ref_differs = requested_ref.is_some() && !opt_str_eq(&existing.ref_name, requested_ref);
    let commit_differs = requested_commit.is_some() && !opt_str_eq(&existing.ref_commit, requested_commit);
    let path_differs = !opt_str_eq(&existing.skill_path, Some(requested_skill_path));
    ref_differs || commit_differs || path_differs
}

/// Whether an install writes its lock entry: it wrote the Master or a fresh
/// Referrer, or there is no entry yet and some target is covered, or a
/// same-owner entry has stale coordinates to heal.
pub open spec fn lock_write_needed(
    wrote_master: bool,
    linked_any: bool,
    has_owner: bool,
    covered_any: bool,
    heal: bool,
) -> bool {
    wrote_master || linked_any || (!has_owner && covered_any) || heal
}

/// The coordinates a lock rewrite records: an omitted ref is carried over
/// from the recorded entry; the recorded commit is carried over only when the
/// request names none and the skill path and (effective) ref still match,
/// since a commit certifies one (ref, path) pair.
pub open spec fn effective_ref(requested: InstallLockSource, owner: Option<LockedSourceOwner>) -> Option<String> {
    match owner {
        Some(o) => if requested.ref_name is None {
            o.ref_name
        } else {
            requested.ref_name
        },
        None => requested.ref_name,
    }
}

pub open spec fn effective_commit(
    requested: InstallLockSource,
    requested_commit: Option<String>,
    lock_skill_path: Seq<char>,
    owner: Option<LockedSourceOwner>,
) -> Option<String> {
    match owner {
        Some(o) => if requested_commit is None && opt_view(o.skill_path) == Some(lock_skill_path) && opt_view(
            o.ref_name,
        ) == opt_view(effective_ref(requested, owner)) {
            o.ref_commit
        } else {
            requested_commit
        },
        None => requested_commit,
    }
}

pub fn effective_coordinates(
    requested: &InstallLockSource,
    requested_commit: Option<String>,
    lock_skill_path: &str,
    owner: Option<&LockedSourceOwner>,
) -> (r: (InstallLockSource, Option<String>))
    ensures
        r.0.source == requested.source,
        r.0.source_type == requested.source_type,
        r.0.source_url == requested.source_url,
        r.0.ref_name == effective_ref(
            *requested,
            match owner {
                Some(o) => Some(*o),
                None => None,
            },
        ),
        r.1 == effective_commit(
            *requested,
            requested_commit,
            lock_skill_path@,
            match owner {
                Some(o) => Some(*o),
                None => None,
            },
        ),
{
    let mut source = InstallLockSource {
        source: requested.source.clone(),
        source_type: requested.source_type.clone(),
        source_url: requested.source_url.clone(),
        ref_name: clone_opt(&requested.ref_name),
    };
    let mut commit = requested_commit;
    match owner {
        None => {},
        Some(o) => {
            if source.ref_name.is_none() {
                source.ref_name = clone_opt(&o.ref_name);
            }
            let same_context = opt_str_eq(&o.skill_path, Some(lock_skill_path)) && match &source.ref_name {
                Some(r) => opt_str_eq(&o.ref_name, Some(r.as_str())),
                None => o.ref_name.is_none(),
            };
            if commit.is_none() && same_context {
                commit = clone_opt(&o.ref_commit);
            }
        },
    }
    (source, commit)
}

/// The distinct Referrer dirs among `needs`, in first-seen order: several
/// agents share one dir, and it is linked once.
pub open spec fn referrer_dirs_spec(needs: Seq<LinkNeed>) -> Seq<Seq<char>>
    decreases needs.len(),
{
    if needs.len() == 0 {
        Seq::empty()
    } else {
        let rest = referrer_dirs_spec(needs.drop_last());
        match needs.last() {
            LinkNeed::NeedsLink { referrer_dir } => if rest.contains(referrer_dir@) {
                rest
            } else {
                rest.push(referrer_dir@)
            },
            LinkNeed::Unsupported => rest,
        }
    }
}

pub fn referrer_dirs_to_link(needs: &Vec<LinkNeed>) -> (out: Vec<String>)
    ensures
        vs(out@) == referrer_dirs_spec(needs@),
{
    let mut out: Vec<String> = Vec::new();
    let mut i: usize = 0;
    while i < needs.len()
        invariant
            i <= needs.len(),
            vs(out@) == referrer_dirs_spec(needs@.take(i as int)),
        decreases needs.len() - i,
    {
        assert(needs@.take(i + 1).drop_last() =~= needs@.take(i as int));
        match &needs[i] {
            LinkNeed::NeedsLink { referrer_dir } => {
                if !contains_str(&out, referrer_dir.as_str()) {
                    let ghost before = vs(out@);
                    out.push(referrer_dir.clone());
                    assert(vs(out@) =~= before.push(referrer_dir@));
                }
            },
            LinkNeed::Unsupported => {},
        }
        i = i + 1;
    }
    assert(needs@.take(needs.len() as int) =~= needs@);
    out
}

/// What the linker reported, by the Referrer dir of each link.
#[derive(Debug)]
pub struct LinkReport {
    /// Dirs whose link failed, with the linker's error.
    pub failed: Vec<(String, String)>,
    /// Dirs whose slot holds a real directory or a foreign link.
    pub conflicts: Vec<String>,
    /// Dirs where a fresh link was created.
    pub linked: Vec<String>,
    /// Dirs whose link was already correct.
    pub already_linked: Vec<String>,
}

/// The first error recorded for `dir`.
pub open spec fn failure_for(failed: Seq<(String, String)>, dir: Seq<char>) -> Option<String>
    decreases failed.len(),
{
    if failed.len() == 0 {
        None
    } else if failed[0].0@ == dir {
        Some(failed[0].1)
    } else {
        failure_for(failed.drop_first(), dir)
    }
}

fn find_failure(failed: &Vec<(String, String)>, dir: &str) -> (r: Option<String>)
    ensures
        r == failure_for(failed@, dir@),
{
    let mut i: usize = 0;
    assert(failed@.skip(0) =~= failed@);
    while i < failed.len()
        invariant
            i <= failed.len(),
            failure_for(failed@.skip(i as int), dir@) == failure_for(failed@, dir@),
        decreases failed.len() - i,
    {
        let ghost rest = failed@.skip(i as int);
        assert(rest[0] == failed@[i as int]);
        assert(rest.drop_first() =~= failed@.skip(i + 1));
        if str_eq(failed[i].0.as_str(), dir) {
            return Some(failed[i].1.clone());
        }
        i = i + 1;
    }
    None
}

pub open spec fn slot_taken_message() -> Seq<char> {
    "A real directory or a foreign link already occupies this skill slot; it was not overwritten"@
}

pub open spec fn unsupported_agent_message() -> Seq<char> {
    "Agent does not support persistent skill creation in this scope"@
}

/// One target agent's row: its link failed (with the linker's error), its
/// slot is taken, or it is installed exactly when its dir was freshly or
/// already linked. An agent with no skills dir here is refused.
pub open spec fn install_row_spec(agent: String, need: LinkNeed, report: LinkReport, row: AgentInstallResult) -> bool {
    row.agent == agent && match need {
        LinkNeed::NeedsLink { referrer_dir } => {
            let d = referrer_dir@;
            match failure_for(report.failed@, d) {
                Some(m) => !row.installed && row.error == Some(m),
                None => if vs(report.conflicts@).contains(d) {
                    !row.installed && (row.error matches Some(m) && m@ == slot_taken_message())
                } else {
                    row.installed == (vs(report.linked@).contains(d) || vs(report.already_linked@).contains(d))
                        && row.error is None
                },
            }
        },
        LinkNeed::Unsupported => !row.installed && (row.error matches Some(m) && m@
            == unsupported_agent_message()),
    }
}

pub fn agent_install_row(agent: &str, need: &LinkNeed, report: &LinkReport) -> (row: AgentInstallResult)
    ensures
        row.agent@ == agent@,
        install_row_spec(row.agent, *need, *report, row),
{
    match need {
        LinkNeed::NeedsLink { referrer_dir } => {
            let d = referrer_dir.as_str();
            match find_failure(&report.failed, d) {
                Some(m) => AgentInstallResult { agent: crate::text::owned(agent), installed: false, error: Some(m) },
                None => if contains_str(&report.conflicts, d) {
                    AgentInstallResult {
                        agent: crate::text::owned(agent),
                        installed: false,
                        error: Some(
                            crate::text::owned(
                                "A real directory or a foreign link already occupies this skill slot; it was not overwritten",
                            ),
                        ),
                    }
                } else {
                    let installed = contains_str(&report.linked, d) || contains_str(&report.already_linked, d);
                    AgentInstallResult { agent: crate::text::owned(agent), installed, error: None }
                },
            }
        },
        LinkNeed::Unsupported => AgentInstallResult {
            agent: crate::text::owned(agent),
            installed: false,
            error: Some(crate::text::owned("Agent does not support persistent skill creation in this scope")),
        },
    }
}

/// How far an install of a fetched skill has come.
#[derive(Debug, Clone, Copy, PartialEq, Eq, Structural)]
pub enum InstallStage {
    /// Parsing the fetched `SKILL.md`.
    Parse,
    /// Taking the interprocess mutation lock.
    Guard,
    /// Hashing the fetched source folder.
    Hash,
    /// Reading the lock entry's recorded owner.
    Owner,
    /// Inspecting the Master slot.
    MasterSlot,
    /// Checking the lock files can be written.
    Writable,
    /// Writing the Master and the Referrers.
    Materialize,
    /// Re-verifying the Master right before the lock write.
    Recheck,
    /// Writing the lock entry.
    LockWrite,
    Done,
}

/// What an install has learned so far.
#[derive(Debug)]
pub struct InstallState {
    pub stage: InstallStage,
    /// The parsed skill name.
    pub name: String,
    /// The fetched source folder's hash.
    pub installed_hash: String,
    /// The owner the lock recorded before the install.
    pub owner: Option<LockedSourceOwner>,
    /// Whether the Master store could be resolved.
    pub has_store: bool,
}

/// Why a Master tree cannot be adopted as link-free.
#[derive(Debug)]
pub enum LinkFreeFailure {
    /// Some path under it could not be inspected.
    Uninspectable(String),
    /// It holds a link or junction.
    HasLink,
}

/// A look at an existing Master: is it free of links, and its hash.
#[derive(Debug)]
pub struct MasterCheck {
    pub link_free: Result<(), LinkFreeFailure>,
    pub hash: Result<String, String>,
}

/// What the Master slot holds.
#[derive(Debug)]
pub enum MasterSlot {
    /// No Master store could be resolved.
    NoStore,
    /// The slot is a link or junction.
    Link,
    /// Nothing is there yet.
    Absent,
    /// A Master is there.
    Present(MasterCheck),
}

/// What materializing the Master and Referrers did.
#[derive(Debug)]
pub struct MaterializeSummary {
    /// This call wrote the Master.
    pub wrote_master: bool,
    /// This call created at least one fresh Referrer.
    pub linked_any: bool,
    /// At least one target row has no error.
    pub covered_any: bool,
}

/// What a materialization did: its target rows, whether it claimed and
/// wrote the Master, and the agent skills dirs where it created a fresh
/// Referrer.
#[derive(Debug)]
pub struct MaterializedMaster {
    pub agent_results: Vec<AgentInstallResult>,
    pub wrote_master: bool,
    pub created_referrer_dirs: Vec<String>,
}

/// Some row of `rows` has no error.
pub open spec fn covers_any(rows: Seq<AgentInstallResult>) -> bool {
    exists|i: int| 0 <= i < rows.len() && #[trigger] rows[i].error is None
}

/// What the install decides on of a materialization: the Master was
/// written, a Referrer was created, some target is covered.
pub fn materialize_summary(m: &MaterializedMaster) -> (s: MaterializeSummary)
    ensures
        s.wrote_master == m.wrote_master,
        s.linked_any == (m.created_referrer_dirs@.len() > 0),
        s.covered_any == covers_any(m.agent_results@),
{
    let mut covered = false;
    let mut i: usize = 0;
    while i < m.agent_results.len()
        invariant
            i <= m.agent_results.len(),
            covered == exists|k: int| 0 <= k < i && #[trigger] m.agent_results@[k].error is None,
        decreases m.agent_results.len() - i,
    {
        if m.agent_results[i].error.is_none() {
            covered = true;
        }
        i = i + 1;
    }
    MaterializeSummary {
        wrote_master: m.wrote_master,
        linked_any: m.created_referrer_dirs.len() > 0,
        covered_any: covered,
    }
}

/// The report of a finished install: the parsed name and the fetched
/// folder's hash the install decided on, what its lock write did (and the
/// entries it replaced), and what its materialization did.
pub fn fetched_install_report(
    st: &InstallState,
    wrote_lock: bool,
    created_lock: bool,
    replaced_global_entry: Option<SkillLockEntry>,
    replaced_project_entry: Option<LocalSkillLockEntry>,
    materialized: MaterializedMaster,
) -> (r: FetchedSkillInstallReport)
    ensures
        r.name@ == st.name@,
        r.installed_hash@ == st.installed_hash@,
        r.wrote_lock == wrote_lock,
        r.created_lock == created_lock,
        r.replaced_global_entry == replaced_global_entry,
        r.replaced_project_entry == replaced_project_entry,
        r.wrote_master == materialized.wrote_master,
        r.created_referrer_dirs@ == materialized.created_referrer_dirs@,
        r.agent_results@ == materialized.agent_results@,
{
    FetchedSkillInstallReport {
        name: st.name.clone(),
        wrote_lock,
        created_lock,
        replaced_global_entry,
        replaced_project_entry,
        wrote_master: materialized.wrote_master,
        created_referrer_dirs: materialized.created_referrer_dirs,
        installed_hash: st.installed_hash.clone(),
        agent_results: materialized.agent_results,
    }
}

/// What the caller observed or got back for the current stage.
#[derive(Debug)]
pub enum InstallEvent {
    Parsed(Result<String, String>),
    Guard(Result<(), String>),
    Hashed(Result<String, String>),
    /// The lock entry's owner ([`skill_lock_source`]).
    Owner(Option<LockedSourceOwner>),
    Slot(MasterSlot),
    Writable(Result<(), String>),
    Materialized(Result<MaterializeSummary, ConfigError>),
    Rechecked(MasterCheck),
    /// The lock write's receipt: whether it replaced an existing entry.
    LockWritten(Result<bool, ConfigError>),
}

/// What the caller does next.
#[derive(Debug)]
pub enum InstallAction {
    /// Observe or perform the next stage.
    Continue,
    /// Write the lock entry with these coordinates.
    WriteLock { source: InstallLockSource, ref_commit: Option<String> },
    /// Report this error.
    Fail(ConfigError),
    /// Undo this call's Master and Referrers, then report this error.
    RollBackThenFail(ConfigError),
    /// The install is done.
    Finish { wrote_lock: bool, created_lock: bool },
}

pub open spec fn install_answers(stage: InstallStage, event: InstallEvent) -> bool {
    match event {
        InstallEvent::Parsed(_) => stage == InstallStage::Parse,
        InstallEvent::Guard(_) => stage == InstallStage::Guard,
        InstallEvent::Hashed(_) => stage == InstallStage::Hash,
        InstallEvent::Owner(_) => stage == InstallStage::Owner,
        InstallEvent::Slot(_) => stage == InstallStage::MasterSlot,
        InstallEvent::Writable(_) => stage == InstallStage::Writable,
        InstallEvent::Materialized(_) => stage == InstallStage::Materialize,
        InstallEvent::Rechecked(_) => stage == InstallStage::Recheck,
        InstallEvent::LockWritten(_) => stage == InstallStage::LockWrite,
    }
}

pub open spec fn is_validation(e: ConfigError, m: Seq<char>) -> bool {
    e matches ConfigError::ValidationFailed(x) && x@ == m
}

pub open spec fn is_invalid(e: ConfigError, m: Seq<char>) -> bool {
    e matches ConfigError::InvalidConfig(x) && x@ == m
}

pub open spec fn owner_refusal(name: Seq<char>, o: LockedSourceOwner, req: InstallLockSource) -> Seq<char> {
    "Skill '"@ + name + "' is already owned by source '"@ + o.source_type@ + ":"@ + o.source@
        + "'; its canonical source owner differs from requested source '"@ + req.source_type@ + ":"@
        + req.source@ + "', so reassignment was refused"@
}

pub open spec fn link_free_message(name: Seq<char>, f: LinkFreeFailure) -> Seq<char> {
    match f {
        LinkFreeFailure::Uninspectable(e) => "Master for skill '"@ + name + "' could not be inspected for links: "@
            + e@,
        LinkFreeFailure::HasLink => "Master for skill '"@ + name
            + "' contains a link or junction; refusing to adopt it"@,
    }
}

pub open spec fn unverifiable_message(name: Seq<char>, e: Seq<char>) -> Seq<char> {
    "Master for skill '"@ + name + "' could not be verified: "@ + e
}

/// The verdict on an existing Master before adopting it or recording it.
pub open spec fn master_verdict(name: Seq<char>, check: MasterCheck, installed_hash: Seq<char>, mismatch: Seq<char>) -> Option<
    Seq<char>,
> {
    match check.link_free {
        Err(f) => Some(link_free_message(name, f)),
        Ok(_) => match check.hash {
            Err(e) => Some(unverifiable_message(name, e@)),
            Ok(h) => if h@ != installed_hash {
                Some(mismatch)
            } else {
                None
            },
        },
    }
}

pub open spec fn adopt_mismatch(name: Seq<char>, source: Seq<char>) -> Seq<char> {
    "Pre-existing Master for skill '"@ + name + "' has different content; refusing to adopt it for fetched source '"@
        + source + "'"@
}

pub open spec fn record_mismatch(name: Seq<char>) -> Seq<char> {
    "Master for skill '"@ + name
        + "' does not match the fetched content before the source lock write; the lock was not written"@
}

/// `prefix` followed by `s`.
fn prefixed(prefix: &str, s: &str) -> (r: String)
    ensures
        r@ == prefix@ + s@,
{
    let r = quoted_message(prefix, s, "");
    proof {
        reveal_strlit("");
        assert(prefix@ + s@ + ""@ =~= prefix@ + s@);
    }
    r
}

fn master_check_error(name: &str, check: &MasterCheck, installed_hash: &str, mismatch: String) -> (r: Option<String>)
    ensures
        match (r, master_verdict(name@, *check, installed_hash@, mismatch@)) {
            (Some(x), Some(m)) => x@ == m,
            (None, None) => true,
            _ => false,
        },
{
    match &check.link_free {
        Err(LinkFreeFailure::Uninspectable(e)) => {
            let head = quoted_message("Master for skill '", name, "' could not be inspected for links: ");
            return Some(prefixed(head.as_str(), e.as_str()));
        },
        Err(LinkFreeFailure::HasLink) => {
            return Some(quoted_message("Master for skill '", name, "' contains a link or junction; refusing to adopt it"));
        },
        Ok(()) => {},
    }
    match &check.hash {
        Err(e) => {
            let head = quoted_message("Master for skill '", name, "' could not be verified: ");
            Some(prefixed(head.as_str(), e.as_str()))
        },
        Ok(h) => if !str_eq(h.as_str(), installed_hash) {
            Some(mismatch)
        } else {
            None
        },
    }
}

/// The transition table of an install.
pub open spec fn install_transition(
    expected_name: Option<Seq<char>>,
    scope: ResourceScope,
    source: InstallLockSource,
    lock_skill_path: Seq<char>,
    ref_commit: Option<String>,
    st: InstallState,
    event: InstallEvent,
    next: InstallState,
    action: InstallAction,
) -> bool {
    let done = next.stage == InstallStage::Done;
    let go = |s: InstallStage| next.stage == s && action is Continue;
    let keep = next.name == st.name && next.installed_hash == st.installed_hash && next.owner == st.owner
        && next.has_store == st.has_store;
    match event {
        InstallEvent::Parsed(Err(e)) => done && (action matches InstallAction::Fail(x) && is_invalid(
            x,
            "Failed to parse skill: "@ + e@,
        )),
        InstallEvent::Parsed(Ok(n)) => if expected_name matches Some(x) && x != n@ {
            done && (action matches InstallAction::Fail(e) && is_validation(
                e,
                "source skill was renamed to '"@ + n@ + "'"@,
            ))
        } else if scope == ResourceScope::Both {
            done && (action matches InstallAction::Fail(e) && is_invalid(
                e,
                "Combined skill scope is not supported for installs"@,
            ))
        } else {
            go(InstallStage::Guard) && next.name == n && next.owner is None
        },
        InstallEvent::Guard(Err(e)) => done && action == InstallAction::Fail(ConfigError::Io(e)),
        InstallEvent::Guard(Ok(_)) => go(InstallStage::Hash) && keep,
        InstallEvent::Hashed(Err(e)) => done && (action matches InstallAction::Fail(x) && is_invalid(
            x,
            "Failed to hash fetched skill: "@ + e@,
        )),
        InstallEvent::Hashed(Ok(h)) => go(InstallStage::Owner) && next.name == st.name && next.installed_hash
            == h && next.owner == st.owner,
        InstallEvent::Owner(o) => match o {
            Some(ow) => if !same_owner_spec(ow, source) {
                done && (action matches InstallAction::Fail(e) && is_validation(
                    e,
                    owner_refusal(st.name@, ow, source),
                ))
            } else {
                go(InstallStage::MasterSlot) && next.name == st.name && next.installed_hash
                    == st.installed_hash && next.owner == o
            },
            None => go(InstallStage::MasterSlot) && next.name == st.name && next.installed_hash
                == st.installed_hash && next.owner == o,
        },
        InstallEvent::Slot(slot) => match slot {
            MasterSlot::Link => done && (action matches InstallAction::Fail(e) && is_validation(
                e,
                "Master slot for skill '"@ + st.name@ + "' is a link; refusing to follow or adopt it"@,
            )),
            MasterSlot::Present(check) => match master_verdict(
                st.name@,
                check,
                st.installed_hash@,
                adopt_mismatch(st.name@, source.source@),
            ) {
                Some(m) => done && (action matches InstallAction::Fail(e) && is_validation(e, m)),
                None => go(InstallStage::Writable) && next.name == st.name && next.installed_hash
                    == st.installed_hash && next.owner == st.owner && next.has_store,
            },
            MasterSlot::Absent => go(InstallStage::Writable) && next.name == st.name && next.installed_hash
                == st.installed_hash && next.owner == st.owner && next.has_store,
            MasterSlot::NoStore => go(InstallStage::Writable) && next.name == st.name && next.installed_hash
                == st.installed_hash && next.owner == st.owner && !next.has_store,
        },
        InstallEvent::Writable(Err(e)) => done && action == InstallAction::Fail(ConfigError::Io(e)),
        InstallEvent::Writable(Ok(_)) => go(InstallStage::Materialize) && keep,
        InstallEvent::Materialized(Err(e)) => done && action == InstallAction::Fail(e),
        InstallEvent::Materialized(Ok(m)) => {
            let heal = st.owner matches Some(ow) && heal_spec(
                ow,
                opt_view(source.ref_name),
                lock_skill_path,
                opt_view(ref_commit),
            );
            if !lock_write_needed(m.wrote_master, m.linked_any, st.owner is Some, m.covered_any, heal) {
                done && action == (InstallAction::Finish { wrote_lock: false, created_lock: false })
            } else if !st.has_store {
                done && (action matches InstallAction::Fail(e) && is_validation(
                    e,
                    "Master for skill '"@ + st.name@
                        + "' could not be resolved before the source lock write; the lock was not written"@,
                ))
            } else {
                go(InstallStage::Recheck) && keep
            }
        },
        InstallEvent::Rechecked(check) => match master_verdict(
            st.name@,
            check,
            st.installed_hash@,
            record_mismatch(st.name@),
        ) {
            Some(m) => done && (action matches InstallAction::Fail(e) && is_validation(e, m)),
            None => next.stage == InstallStage::LockWrite && keep && (action matches InstallAction::WriteLock {
                source: s,
                ref_commit: c,
            } && s.source == source.source && s.source_type == source.source_type && s.source_url
                == source.source_url && s.ref_name == effective_ref(source, st.owner) && c == effective_commit(
                source,
                ref_commit,
                lock_skill_path,
                st.owner,
            )),
        },
        InstallEvent::LockWritten(Err(e)) => done && action == InstallAction::RollBackThenFail(e),
        InstallEvent::LockWritten(Ok(replaced)) => done && action == (InstallAction::Finish {
            wrote_lock: true,
            created_lock: !replaced,
        }),
    }
}

/// One step of installing a fetched skill: parse (and refuse a renamed
/// source or the `Both` scope), lock, hash, refuse a foreign owner, refuse a
/// linked or different pre-existing Master, check the locks are writable,
/// materialize, then write the lock entry only when something was created or
/// healed, re-verifying the Master first. Only a failed lock write undoes the
/// materialized Master and Referrers.
pub fn install_step(
    expected_name: Option<&str>,
    scope: ResourceScope,
    source: &InstallLockSource,
    lock_skill_path: &str,
    ref_commit: &Option<String>,
    st: InstallState,
    event: InstallEvent,
) -> (r: (InstallState, InstallAction))
    requires
        install_answers(st.stage, event),
    ensures
        install_transition(opt_s(expected_name), scope, *source, lock_skill_path@, *ref_commit, st, event, r.0, r.1),
        (r.0.stage == InstallStage::Done) == !(r.1 is Continue || r.1 is WriteLock),
        r.1 is RollBackThenFail ==> st.stage == InstallStage::LockWrite,
        r.1 is WriteLock ==> st.stage == InstallStage::Recheck,
{
    let ghost st0 = st;
    let InstallState { stage, name, installed_hash, owner, has_store } = st;
    let done = |name: String, installed_hash: String, owner: Option<LockedSourceOwner>, has_store: bool| -> (s:
        InstallState)
        ensures
            s == (InstallState { stage: InstallStage::Done, name, installed_hash, owner, has_store }),
        { InstallState { stage: InstallStage::Done, name, installed_hash, owner, has_store } };
    match event {
        InstallEvent::Parsed(Err(e)) => {
            let m = quoted_message("Failed to parse skill: ", e.as_str(), "");
            proof {
                reveal_strlit("");
                assert(m@ =~= "Failed to parse skill: "@ + e@);
            }
            (done(name, installed_hash, owner, has_store), InstallAction::Fail(ConfigError::InvalidConfig(m)))
        },
        InstallEvent::Parsed(Ok(n)) => {
            let renamed = match expected_name {
                Some(x) => !str_eq(x, n.as_str()),
                None => false,
            };
            if renamed {
                let m = quoted_message("source skill was renamed to '", n.as_str(), "'");
                (done(name, installed_hash, owner, has_store), InstallAction::Fail(ConfigError::ValidationFailed(m)))
            } else if scope == ResourceScope::Both {
                let m = owned("Combined skill scope is not supported for installs");
                (done(name, installed_hash, owner, has_store), InstallAction::Fail(ConfigError::InvalidConfig(m)))
            } else {
                (
                    InstallState { stage: InstallStage::Guard, name: n, installed_hash, owner: None, has_store },
                    InstallAction::Continue,
                )
            }
        },
        InstallEvent::Guard(Err(e)) => (done(name, installed_hash, owner, has_store), InstallAction::Fail(
            ConfigError::Io(e),
        )),
        InstallEvent::Guard(Ok(())) => (
            InstallState { stage: InstallStage::Hash, name, installed_hash, owner, has_store },
            InstallAction::Continue,
        ),
        InstallEvent::Hashed(Err(e)) => {
            let m = quoted_message("Failed to hash fetched skill: ", e.as_str(), "");
            proof {
                reveal_strlit("");
                assert(m@ =~= "Failed to hash fetched skill: "@ + e@);
            }
            (done(name, installed_hash, owner, has_store), InstallAction::Fail(ConfigError::InvalidConfig(m)))
        },
        InstallEvent::Hashed(Ok(h)) => (
            InstallState { stage: InstallStage::Owner, name, installed_hash: h, owner, has_store },
            InstallAction::Continue,
        ),
        InstallEvent::Owner(o) => {
            let refused = match &o {
                Some(ow) => !same_source_owner(ow, source),
                None => false,
            };
            if refused {
                let ow = o.unwrap();
                let a = quoted_message("Skill '", name.as_str(), "' is already owned by source '");
                let b = quoted_message(a.as_str(), ow.source_type.as_str(), ":");
                let c = quoted_message(
                    b.as_str(),
                    ow.source.as_str(),
                    "'; its canonical source owner differs from requested source '",
                );
                let d = quoted_message(c.as_str(), source.source_type.as_str(), ":");
                let m = quoted_message(d.as_str(), source.source.as_str(), "', so reassignment was refused");
                assert(m@ =~= owner_refusal(name@, ow, *source));
                (done(name, installed_hash, None, has_store), InstallAction::Fail(ConfigError::ValidationFailed(m)))
            } else {
                (
                    InstallState { stage: InstallStage::MasterSlot, name, installed_hash, owner: o, has_store },
                    InstallAction::Continue,
                )
            }
        },
        InstallEvent::Slot(slot) => match slot {
            MasterSlot::Link => {
                let m = quoted_message(
                    "Master slot for skill '",
                    name.as_str(),
                    "' is a link; refusing to follow or adopt it",
                );
                (done(name, installed_hash, owner, has_store), InstallAction::Fail(ConfigError::ValidationFailed(m)))
            },
            MasterSlot::Present(check) => {
                let head = quoted_message("Pre-existing Master for skill '", name.as_str(), "' has different content; refusing to adopt it for fetched source '");
                let mismatch = quoted_message(head.as_str(), source.source.as_str(), "'");
                assert(mismatch@ =~= adopt_mismatch(name@, source.source@));
                match master_check_error(name.as_str(), &check, installed_hash.as_str(), mismatch) {
                    Some(m) => (done(name, installed_hash, owner, has_store), InstallAction::Fail(
                        ConfigError::ValidationFailed(m),
                    )),
                    None => (
                        InstallState { stage: InstallStage::Writable, name, installed_hash, owner, has_store: true },
                        InstallAction::Continue,
                    ),
                }
            },
            MasterSlot::Absent => (
                InstallState { stage: InstallStage::Writable, name, installed_hash, owner, has_store: true },
                InstallAction::Continue,
            ),
            MasterSlot::NoStore => (
                InstallState { stage: InstallStage::Writable, name, installed_hash, owner, has_store: false },
                InstallAction::Continue,
            ),
        },
        InstallEvent::Writable(Err(e)) => (done(name, installed_hash, owner, has_store), InstallAction::Fail(
            ConfigError::Io(e),
        )),
        InstallEvent::Writable(Ok(())) => (
            InstallState { stage: InstallStage::Materialize, name, installed_hash, owner, has_store },
            InstallAction::Continue,
        ),
        InstallEvent::Materialized(Err(e)) => (done(name, installed_hash, owner, has_store), InstallAction::Fail(e)),
        InstallEvent::Materialized(Ok(m)) => {
            let req_ref: Option<&str> = match &source.ref_name {
                Some(r) => Some(r.as_str()),
                None => None,
            };
            let req_commit: Option<&str> = match ref_commit {
                Some(c) => Some(c.as_str()),
                None => None,
            };
            let heal = match &owner {
                Some(ow) => coordinates_need_heal(ow, req_ref, lock_skill_path, req_commit),
                None => false,
            };
            let wrote_lock = m.wrote_master || m.linked_any || (owner.is_none() && m.covered_any) || heal;
            if !wrote_lock {
                (done(name, installed_hash, owner, has_store), InstallAction::Finish {
                    wrote_lock: false,
                    created_lock: false,
                })
            } else if !has_store {
                let msg = quoted_message(
                    "Master for skill '",
                    name.as_str(),
                    "' could not be resolved before the source lock write; the lock was not written",
                );
                (done(name, installed_hash, owner, has_store), InstallAction::Fail(
                    ConfigError::ValidationFailed(msg),
                ))
            } else {
                (
                    InstallState { stage: InstallStage::Recheck, name, installed_hash, owner, has_store },
                    InstallAction::Continue,
                )
            }
        },
        InstallEvent::Rechecked(check) => {
            let mismatch = quoted_message(
                "Master for skill '",
                name.as_str(),
                "' does not match the fetched content before the source lock write; the lock was not written",
            );
            match master_check_error(name.as_str(), &check, installed_hash.as_str(), mismatch) {
                Some(msg) => (done(name, installed_hash, owner, has_store), InstallAction::Fail(
                    ConfigError::ValidationFailed(msg),
                )),
                None => {
                    let (eff_source, eff_commit) = effective_coordinates(
                        source,
                        clone_opt(ref_commit),
                        lock_skill_path,
                        owner.as_ref(),
                    );
                    (
                        InstallState { stage: InstallStage::LockWrite, name, installed_hash, owner, has_store },
                        InstallAction::WriteLock { source: eff_source, ref_commit: eff_commit },
                    )
                },
            }
        },
        InstallEvent::LockWritten(Err(e)) => (done(name, installed_hash, owner, has_store), InstallAction::RollBackThenFail(e)),
        InstallEvent::LockWritten(Ok(replaced)) => (done(name, installed_hash, owner, has_store), InstallAction::Finish {
            wrote_lock: true,
            created_lock: !replaced,
        }),
    }
}

/// What materializing the Master for a set of target agents comes to,
/// before anything is written.
#[derive(Debug)]
pub enum MaterializeDecision {
    /// The Master store cannot be resolved: one not-installed row per agent.
    NoStore { rows: Vec<AgentInstallResult> },
    /// No target agents: nothing to do.
    NothingToDo,
    /// An agent cannot take the skill in this scope: the whole request is
    /// refused before the shared Master is written.
    Refuse { agent: String, message: String },
    /// Materialize the Master, then link each distinct Referrer dir once.
    Link { dirs: Vec<String> },
}

pub open spec fn refusal_for_agent(agent: Seq<char>) -> Seq<char> {
    "agent '"@ + agent + "' does not support persistent skill creation in this scope"@
}

/// The first agent whose need is `Unsupported`.
pub open spec fn first_unsupported(needs: Seq<LinkNeed>, n: int) -> Option<int>
    decreases n,
{
    if n <= 0 {
        None
    } else {
        match first_unsupported(needs, n - 1) {
            Some(i) => Some(i),
            None => if needs[n - 1] is Unsupported {
                Some(n - 1)
            } else {
                None
            },
        }
    }
}

proof fn lemma_first_unsupported(needs: Seq<LinkNeed>, n: int)
    requires
        first_unsupported(needs, n) matches Some(i),
    ensures
        first_unsupported(needs, n) matches Some(i) && 0 <= i < n && needs[i] is Unsupported,
    decreases n,
{
    if n > 0 {
        if first_unsupported(needs, n - 1) is Some {
            lemma_first_unsupported(needs, n - 1);
        }
    }
}

/// The row of an agent when the Master store cannot be resolved.
pub open spec fn no_store_row(row: AgentInstallResult, agent: String) -> bool {
    &&& row.agent == agent
    &&& !row.installed
    &&& row.error matches Some(m) && m@ == "Cannot resolve .agents canonical directory"@
}

pub open spec fn no_store_rows(rows: Seq<AgentInstallResult>, agents: Seq<String>) -> bool {
    rows.len() == agents.len() && forall|i: int| 0 <= i < rows.len() ==> no_store_row(#[trigger] rows[i], agents[i])
}

/// Decide a materialization for `agents` (each with its link need, in the
/// same order): no store gives a failed row per agent ("Cannot resolve
/// .agents canonical directory"); no agents, nothing; an `Unsupported`
/// agent refuses the whole request (the first one is named); otherwise the
/// distinct Referrer dirs to link.
pub fn materialize_decision(store_resolved: bool, agents: &Vec<String>, needs: &Vec<LinkNeed>) -> (r:
    MaterializeDecision)
    requires
        agents.len() == needs.len(),
    ensures
        !store_resolved ==> (r matches MaterializeDecision::NoStore { rows } && no_store_rows(rows@, agents@)),
        store_resolved && agents@.len() == 0 ==> r is NothingToDo,
        store_resolved && agents@.len() > 0 ==> match first_unsupported(needs@, needs@.len() as int) {
            Some(i) => (r matches MaterializeDecision::Refuse { agent, message } && agent@ == agents@[i]@
                && message@ == refusal_for_agent(agents@[i]@)),
            None => (r matches MaterializeDecision::Link { dirs } && vs(dirs@) == referrer_dirs_spec(needs@)),
        },
{
    if !store_resolved {
        let mut rows: Vec<AgentInstallResult> = Vec::new();
        let mut i: usize = 0;
        while i < agents.len()
            invariant
                i <= agents.len(),
                rows@.len() == i,
                forall|k: int| 0 <= k < i ==> no_store_row(#[trigger] rows@[k], agents@[k]),
            decreases agents.len() - i,
        {
            let msg = owned("Cannot resolve .agents canonical directory");
            proof {
                reveal_strlit("Cannot resolve .agents canonical directory");
            }
            rows.push(AgentInstallResult { agent: agents[i].clone(), installed: false, error: Some(msg) });
            i = i + 1;
        }
        assert(no_store_rows(rows@, agents@)) by {
            assert forall|k: int| 0 <= k < rows@.len() implies no_store_row(#[trigger] rows@[k], agents@[k]) by {}
        }
        return MaterializeDecision::NoStore { rows };
    }
    if agents.len() == 0 {
        return MaterializeDecision::NothingToDo;
    }
    let mut i: usize = 0;
    while i < needs.len()
        invariant
            i <= needs.len(),
            agents.len() == needs.len(),
            store_resolved,
            agents.len() > 0,
            first_unsupported(needs@, i as int) is None,
        decreases needs.len() - i,
    {
        match &needs[i] {
            LinkNeed::Unsupported => {
                proof {
                    assert(first_unsupported(needs@, i + 1) == Some(i as int));
                    lemma_first_unsupported_stays(needs@, i + 1, needs@.len() as int);
                }
                let message = quoted_message(
                    "agent '",
                    agents[i].as_str(),
                    "' does not support persistent skill creation in this scope",
                );
                return MaterializeDecision::Refuse { agent: agents[i].clone(), message };
            },
            LinkNeed::NeedsLink { .. } => {},
        }
        i = i + 1;
    }
    MaterializeDecision::Link { dirs: referrer_dirs_to_link(needs) }
}

proof fn lemma_first_unsupported_stays(needs: Seq<LinkNeed>, m: int, n: int)
    requires
        0 <= m <= n,
        first_unsupported(needs, m) is Some,
    ensures
        first_unsupported(needs, n) == first_unsupported(needs, m),
    decreases n - m,
{
    if m < n {
        lemma_first_unsupported_stays(needs, m, n - 1);
    }
}

/// The stages before the Master is materialized: nothing has been written.
pub open spec fn before_materialize(s: InstallStage) -> bool {
    s == InstallStage::Parse || s == InstallStage::Guard || s == InstallStage::Hash || s == InstallStage::Owner || s
        == InstallStage::MasterSlot || s == InstallStage::Writable
}

/// Every refusal before the Master stage writes nothing: a step before it
/// goes on (to a later such stage, or to materializing) or fails outright,
/// with nothing to roll back and no lock entry written.
pub proof fn lemma_install_refusals_before_materialize_write_nothing(
    expected_name: Option<Seq<char>>,
    scope: ResourceScope,
    source: InstallLockSource,
    lock_skill_path: Seq<char>,
    ref_commit: Option<String>,
    st: InstallState,
    event: InstallEvent,
    next: InstallState,
    action: InstallAction,
)
    requires
        before_materialize(st.stage),
        install_answers(st.stage, event),
        install_transition(expected_name, scope, source, lock_skill_path, ref_commit, st, event, next, action),
    ensures
        action is Continue || action is Fail,
        action is Continue ==> before_materialize(next.stage) || next.stage == InstallStage::Materialize,
        action is Fail ==> next.stage == InstallStage::Done,
{
}

/// Every failed check of an install refuses it: the step ends with a
/// failure, and before the lock write nothing is rolled back (nothing was
/// written, or, for a failed materialization, the materializer cleans up
/// itself). A renamed source, the combined scope, a foreign owner and a
/// linked Master slot are always refused. A failed lock write rolls the
/// materialized install back; a lock is written only after the Master was
/// re-checked, and a written lock reports whether it created the entry.
pub proof fn lemma_install_refusals(
    expected_name: Option<Seq<char>>,
    scope: ResourceScope,
    source: InstallLockSource,
    lock_skill_path: Seq<char>,
    ref_commit: Option<String>,
    st: InstallState,
    event: InstallEvent,
    next: InstallState,
    action: InstallAction,
)
    requires
        install_transition(expected_name, scope, source, lock_skill_path, ref_commit, st, event, next, action),
    ensures
        event matches InstallEvent::Parsed(Err(_)) ==> next.stage == InstallStage::Done && action is Fail,
        (event matches InstallEvent::Parsed(Ok(n)) && expected_name matches Some(x) && x != n@) ==> next.stage
            == InstallStage::Done && action is Fail,
        (event is Parsed && scope == ResourceScope::Both) ==> next.stage == InstallStage::Done && action is Fail,
        event matches InstallEvent::Guard(Err(e)) ==> next.stage == InstallStage::Done && action
            == InstallAction::Fail(ConfigError::Io(e)),
        event matches InstallEvent::Hashed(Err(_)) ==> next.stage == InstallStage::Done && action is Fail,
        event matches InstallEvent::Hashed(Ok(h)) ==> next.installed_hash == h,
        (event matches InstallEvent::Owner(Some(ow)) && !same_owner_spec(ow, source)) ==> next.stage
            == InstallStage::Done && action is Fail,
        event matches InstallEvent::Slot(MasterSlot::Link) ==> next.stage == InstallStage::Done && action is Fail,
        event matches InstallEvent::Writable(Err(e)) ==> next.stage == InstallStage::Done && action
            == InstallAction::Fail(ConfigError::Io(e)),
        event matches InstallEvent::Materialized(Err(e)) ==> next.stage == InstallStage::Done && action
            == InstallAction::Fail(e),
        event matches InstallEvent::LockWritten(Err(e)) ==> next.stage == InstallStage::Done && action
            == InstallAction::RollBackThenFail(e),
        event matches InstallEvent::LockWritten(Ok(replaced)) ==> next.stage == InstallStage::Done && action
            == (InstallAction::Finish { wrote_lock: true, created_lock: !replaced }),
        action is WriteLock ==> event is Rechecked,
        action is RollBackThenFail ==> event is LockWritten,
        (action matches InstallAction::Finish { wrote_lock, .. } && wrote_lock) ==> event is LockWritten,
{
}

/// The ownership check goes by the canonical remote: a locked entry and a
/// request of the same source type whose URLs normalize to the same
/// `host/path` are the same owner, whatever transport either uses (an
/// `http` lock entry is claimed by an `https` request of the same
/// repository); URLs that normalize to different owners, or a different
/// source type, are refused.
pub proof fn lemma_owner_check_goes_by_remote(existing: LockedSourceOwner, requested: InstallLockSource, rest: Seq<char>)
    ensures
        (existing.source_url matches Some(u) && u@ == seq!['h', 't', 't', 'p', ':', '/', '/'] + rest
            && requested.source_url@ == seq!['h', 't', 't', 'p', 's', ':', '/', '/'] + rest && trim_ws(u@).len() > 0
            && remote_owner(requested.source_url@) is Some && ascii_lower_seq(existing.source_type@)
            == ascii_lower_seq(requested.source_type@)) ==> same_owner_spec(existing, requested),
        (existing.source_url matches Some(u) && trim_ws(u@).len() > 0 && remote_owner(u@) is Some && remote_owner(
            requested.source_url@,
        ) is Some && remote_owner(u@) != remote_owner(requested.source_url@)) ==> !same_owner_spec(existing, requested),
        ascii_lower_seq(existing.source_type@) != ascii_lower_seq(requested.source_type@) ==> !same_owner_spec(
            existing,
            requested,
        ),
{
    crate::remote::lemma_transport_does_not_define_owner(rest);
}

} // verus!
