//! Re-sync an installed skill from a freshly fetched source folder: discover
//! the installed targets, check the fetch is still current, refuse a renamed
//! or audited-out source, hash, refuse a conflicting real copy, check
//! containment, stage and swap every target, re-stamp the lock. A swap or lock
//! failure rolls every replaced target back, so disk content and the lock
//! advance together.
//!
//! The filesystem work is the caller's; [`resync_step`] decides, one
//! observation at a time.

use vstd::prelude::*;

use crate::audit::{guard_fetched_source, is_refusal, AuditReport};
use crate::lock::{quoted_message, EntryIdentity, MUTATION_LOCK_BUSY_CODE, SOURCE_CHANGED_DURING_FETCH_CODE};
use crate::manager::ConfigError;
use crate::models::ResourceScope;
use crate::text::{owned, str_eq};

verus! {

/// Inputs of a resync. `source_dir` is an already-sanitized skill folder;
/// `name` is the locked name the source must still match; `expected` is the
/// entry's identity as captured before the fetch.
pub struct ResyncRequest<'a> {
    pub source_dir: &'a str,
    pub name: &'a str,
    pub scope: ResourceScope,
    pub project_root: Option<&'a str>,
    pub ref_commit: Option<&'a str>,
    pub expected: EntryIdentity,
    /// Apply even when the security audit calls the fetched update malicious.
    pub force_unsafe: bool,
}

/// Outcome of a successful resync: every installed target was swapped and
/// `updated_hash` recorded in the lock.
#[derive(Debug)]
pub struct ResyncReport {
    pub swapped: Vec<String>,
    pub updated_hash: String,
}

/// Why a resync could not complete.
#[derive(Debug)]
pub enum ResyncError {
    /// The interprocess mutation lock could not be taken (nothing was mutated).
    Locked(String),
    /// The lock entry changed while this resync was fetching (nothing was
    /// mutated).
    StaleFetch(String),
    /// The skill has no installed copy on disk in this scope.
    NotInstalled,
    /// The fetched source's frontmatter `name` no longer matches the locked name.
    Renamed { new_name: String },
    /// The fetched `SKILL.md` could not be parsed.
    Parse(String),
    /// A folder hash could not be computed.
    Hash(String),
    /// The fetched update was refused by the security audit.
    Audit(String),
    /// A distinct real copy would be overwritten alongside the Master.
    Conflict(String),
    /// An installed target resolved outside the allow-listed skill roots.
    OutOfTree(String),
    /// A target failed to stage or swap; completed swaps were rolled back.
    Swap(String),
    /// The lock could not be re-stamped; targets were rolled back.
    LockUpdate(String),
}

pub open spec fn resync_code(e: ResyncError) -> Seq<char> {
    match e {
        ResyncError::Locked(_) => MUTATION_LOCK_BUSY_CODE@,
        ResyncError::StaleFetch(_) => SOURCE_CHANGED_DURING_FETCH_CODE@,
        ResyncError::NotInstalled => "SKILL_NOT_INSTALLED"@,
        ResyncError::Renamed { .. } => "SKILL_RENAMED_IN_SOURCE"@,
        ResyncError::Parse(_) => "SKILL_PARSE_FAILED"@,
        ResyncError::Audit(_) => "VALIDATION_FAILED"@,
        ResyncError::Conflict(_) => "SKILL_UPDATE_CONFLICT"@,
        ResyncError::OutOfTree(_) => "SKILL_TARGET_OUT_OF_TREE"@,
        ResyncError::Hash(_) | ResyncError::Swap(_) => "SKILL_SYNC_ERROR"@,
        ResyncError::LockUpdate(_) => "SKILL_LOCK_ERROR"@,
    }
}

pub open spec fn resync_message(e: ResyncError) -> Seq<char> {
    match e {
        ResyncError::Locked(m) => m@,
        ResyncError::StaleFetch(m) => m@,
        ResyncError::NotInstalled => "skill is locked but no installed copy was found"@,
        ResyncError::Renamed { new_name } => "source skill was renamed to '"@ + new_name@ + "'"@,
        ResyncError::Parse(m) => "failed to parse fetched skill: "@ + m@,
        ResyncError::Hash(m) => "failed to hash fetched skill: "@ + m@,
        ResyncError::Audit(m) => m@,
        ResyncError::Conflict(m) => m@,
        ResyncError::OutOfTree(m) => m@,
        ResyncError::Swap(m) => "failed to replace installed skill: "@ + m@,
        ResyncError::LockUpdate(m) => m@,
    }
}

/// `prefix` followed by `s`.
fn prefixed(prefix: &str, s: &str) -> (r: String)
    ensures
        r@ == prefix@ + s@,
{
    let r = quoted_message(prefix, s, "");
    proof {
        reveal_strlit("");
        assert(prefix@ + s@ + ""@ =~= prefix@ + s@);
    }
    r
}

/// The stable machine code for a resync failure, one classification read by
/// every surface.
pub fn resync_error_code(error: &ResyncError) -> (r: &'static str)
    ensures
        r@ == resync_code(*error),
{
    match error {
        ResyncError::Locked(_) => MUTATION_LOCK_BUSY_CODE,
        ResyncError::StaleFetch(_) => SOURCE_CHANGED_DURING_FETCH_CODE,
        ResyncError::NotInstalled => "SKILL_NOT_INSTALLED",
        ResyncError::Renamed { .. } => "SKILL_RENAMED_IN_SOURCE",
        ResyncError::Parse(_) => "SKILL_PARSE_FAILED",
        ResyncError::Audit(_) => "VALIDATION_FAILED",
        ResyncError::Conflict(_) => "SKILL_UPDATE_CONFLICT",
        ResyncError::OutOfTree(_) => "SKILL_TARGET_OUT_OF_TREE",
        ResyncError::Hash(_) | ResyncError::Swap(_) => "SKILL_SYNC_ERROR",
        ResyncError::LockUpdate(_) => "SKILL_LOCK_ERROR",
    }
}

impl ResyncError {
    /// The error's message.
    pub fn message(&self) -> (r: String)
        ensures
            r@ == resync_message(*self),
    {
        match self {
            ResyncError::Locked(m) => m.clone(),
            ResyncError::StaleFetch(m) => m.clone(),
            ResyncError::NotInstalled => owned("skill is locked but no installed copy was found"),
            ResyncError::Renamed { new_name } => quoted_message(
                "source skill was renamed to '",
                new_name.as_str(),
                "'",
            ),
            ResyncError::Parse(m) => prefixed("failed to parse fetched skill: ", m.as_str()),
            ResyncError::Hash(m) => prefixed("failed to hash fetched skill: ", m.as_str()),
            ResyncError::Audit(m) => m.clone(),
            ResyncError::Conflict(m) => m.clone(),
            ResyncError::OutOfTree(m) => m.clone(),
            ResyncError::Swap(m) => prefixed("failed to replace installed skill: ", m.as_str()),
            ResyncError::LockUpdate(m) => m.clone(),
        }
    }
}

/// What was found of the Master store before updating a shared Master.
#[derive(Debug)]
pub enum MasterStore {
    /// No store, or it does not exist: nothing to protect.
    Absent,
    /// The store could not be resolved.
    StoreUnresolvable(String),
    /// The store could not be listed.
    StoreUninspectable(String),
    /// A Master named like the skill could not be resolved.
    MasterUnresolvable(String),
    /// The resolved Masters named like the skill.
    Masters(Vec<String>),
}

/// A real installed copy (not a link) of the skill.
#[derive(Debug)]
pub struct InstalledCopy {
    /// Its resolved root, or why it could not be resolved.
    pub root: Result<String, String>,
    /// Its folder hash, or why it could not be computed.
    pub hash: Result<String, String>,
}

/// What the conflicting-copy check looks at.
#[derive(Debug)]
pub struct ConflictObservation {
    pub store: MasterStore,
    /// The single Master's folder hash, or why it could not be computed.
    pub master_hash: Result<String, String>,
    /// The real copies, in agent order.
    pub copies: Vec<InstalledCopy>,
}

/// The verdict of the conflicting-copy check.
pub enum Verdict {
    Clear,
    Hash(Seq<char>),
    Conflict(Seq<char>),
}

pub open spec fn copies_verdict(copies: Seq<InstalledCopy>, master: Seq<char>, master_hash: Seq<char>) -> Verdict
    decreases copies.len(),
{
    if copies.len() == 0 {
        Verdict::Clear
    } else {
        match copies[0].root {
            Err(e) => Verdict::Hash("failed to resolve installed copy: "@ + e@),
            Ok(root) => if root@ == master {
                copies_verdict(copies.drop_first(), master, master_hash)
            } else {
                match copies[0].hash {
                    Err(e) => Verdict::Hash("failed to hash installed copy "@ + root@ + ": "@ + e@),
                    Ok(h) => if h@ != master_hash {
                        Verdict::Conflict(
                            "skill has a different installed copy alongside its Master: "@ + root@,
                        )
                    } else {
                        copies_verdict(copies.drop_first(), master, master_hash)
                    },
                }
            },
        }
    }
}

/// A shared Master must never overwrite a separate real copy of unknown
/// history: a copy that differs from an existing single Master is refused,
/// and so are several Masters.
pub open spec fn conflict_verdict(obs: ConflictObservation) -> Verdict {
    match obs.store {
        MasterStore::Absent => Verdict::Clear,
        MasterStore::StoreUnresolvable(e) => Verdict::Hash("failed to resolve Master store: "@ + e@),
        MasterStore::StoreUninspectable(e) => Verdict::Hash("failed to inspect Master store: "@ + e@),
        MasterStore::MasterUnresolvable(e) => Verdict::Hash("failed to resolve Master: "@ + e@),
        MasterStore::Masters(ms) => if ms.len() > 1 {
            Verdict::Conflict("skill has multiple Master copies in its store"@)
        } else if ms.len() == 0 {
            Verdict::Clear
        } else {
            match obs.master_hash {
                Err(e) => Verdict::Hash("failed to hash Master: "@ + e@),
                Ok(h) => copies_verdict(obs.copies@, ms@[0]@, h@),
            }
        },
    }
}

/// A result matches a verdict.
pub open spec fn verdict_matches(r: Result<(), ResyncError>, v: Verdict) -> bool {
    match v {
        Verdict::Clear => r is Ok,
        Verdict::Hash(m) => r matches Err(ResyncError::Hash(s)) && s@ == m,
        Verdict::Conflict(m) => r matches Err(ResyncError::Conflict(s)) && s@ == m,
    }
}

/// Refuse to update a shared Master beside a real copy that differs from it.
pub fn refuse_conflicting_copy(obs: &ConflictObservation) -> (r: Result<(), ResyncError>)
    ensures
        verdict_matches(r, conflict_verdict(*obs)),
{
    let masters = match &obs.store {
        MasterStore::Absent => {
            return Ok(());
        },
        MasterStore::StoreUnresolvable(e) => {
            return Err(ResyncError::Hash(prefixed("failed to resolve Master store: ", e.as_str())));
        },
        MasterStore::StoreUninspectable(e) => {
            return Err(ResyncError::Hash(prefixed("failed to inspect Master store: ", e.as_str())));
        },
        MasterStore::MasterUnresolvable(e) => {
            return Err(ResyncError::Hash(prefixed("failed to resolve Master: ", e.as_str())));
        },
        MasterStore::Masters(ms) => ms,
    };
    if masters.len() > 1 {
        return Err(ResyncError::Conflict(owned("skill has multiple Master copies in its store")));
    }
    if masters.len() == 0 {
        return Ok(());
    }
    let master = masters[0].as_str();
    let master_hash = match &obs.master_hash {
        Err(e) => {
            return Err(ResyncError::Hash(prefixed("failed to hash Master: ", e.as_str())));
        },
        Ok(h) => h.as_str(),
    };
    let ghost target = conflict_verdict(*obs);
    assert(target == copies_verdict(obs.copies@, master@, master_hash@));
    let mut i: usize = 0;
    assert(obs.copies@.skip(0) =~= obs.copies@);
    while i < obs.copies.len()
        invariant
            i <= obs.copies.len(),
            copies_verdict(obs.copies@.skip(i as int), master@, master_hash@) == target,
            target == conflict_verdict(*obs),
        decreases obs.copies.len() - i,
    {
        let ghost rest = obs.copies@.skip(i as int);
        assert(rest[0] == obs.copies@[i as int]);
        assert(rest.drop_first() =~= obs.copies@.skip(i + 1));
        let c = &obs.copies[i];
        match &c.root {
            Err(e) => {
                return Err(ResyncError::Hash(prefixed("failed to resolve installed copy: ", e.as_str())));
            },
            Ok(root) => {
                if !str_eq(root.as_str(), master) {
                    match &c.hash {
                        Err(e) => {
                            let head = quoted_message("failed to hash installed copy ", root.as_str(), ": ");
                            let m = prefixed(head.as_str(), e.as_str());
                            return Err(ResyncError::Hash(m));
                        },
                        Ok(h) => {
                            if !str_eq(h.as_str(), master_hash) {
                                return Err(
                                    ResyncError::Conflict(
                                        prefixed(
                                            "skill has a different installed copy alongside its Master: ",
                                            root.as_str(),
                                        ),
                                    ),
                                );
                            }
                        },
                    }
                }
            },
        }
        i = i + 1;
    }
    assert(obs.copies@.skip(obs.copies.len() as int) =~= Seq::<InstalledCopy>::empty());
    Ok(())
}

/// How far a resync has come.
#[derive(Debug)]
pub enum ResyncStage {
    Guard,
    Targets,
    Unchanged,
    Parse,
    Audit,
    Hash,
    Conflict,
    Containment,
    Prepare,
    Swap,
    /// A swap failed (with this error); the swapped targets are being rolled
    /// back.
    SwapRollback(String),
    LockUpdate,
    /// The lock re-stamp failed (with this error); the targets are being
    /// rolled back.
    LockRollback(String),
    Done,
}

/// What the caller observed or got back for the current stage.
#[derive(Debug)]
pub enum ResyncEvent {
    /// The mutation lock was taken, or why not.
    Guard(Result<(), String>),
    /// How many installed targets the skill has in scope.
    Targets(usize),
    /// The compare-after-fetch ([`EntryIdentity::ensure_unchanged`]).
    Unchanged(Result<(), String>),
    /// The name the fetched `SKILL.md` declares, or its parse error.
    Parsed(Result<String, String>),
    /// The security audit let the update through, or why not.
    Audited(Result<(), String>),
    /// The source folder's hash, or why it could not be computed.
    Hashed(Result<String, String>),
    /// The conflicting-copy check ([`refuse_conflicting_copy`]).
    ConflictChecked(Result<(), ResyncError>),
    /// The targets' strict containment check.
    Contained(Result<(), String>),
    /// Staging every target, or why it failed.
    Prepared(Result<(), String>),
    /// Swapping every target, or why it failed.
    Swapped(Result<(), String>),
    /// Re-stamping the lock, or why it failed.
    LockUpdated(Result<(), String>),
    /// Rolling the targets back, or why that failed too.
    RolledBack(Result<(), String>),
}

/// What the caller does next.
#[derive(Debug)]
pub enum ResyncAction {
    /// Observe or perform the next stage.
    Continue,
    /// Roll every replaced target back to its prior contents.
    RollBack,
    /// Report this error.
    Fail(ResyncError),
    /// Keep the new contents: the resync is committed.
    Commit,
}

pub open spec fn resync_answers(stage: ResyncStage, event: ResyncEvent) -> bool {
    match event {
        ResyncEvent::Guard(_) => stage is Guard,
        ResyncEvent::Targets(_) => stage is Targets,
        ResyncEvent::Unchanged(_) => stage is Unchanged,
        ResyncEvent::Parsed(_) => stage is Parse,
        ResyncEvent::Audited(_) => stage is Audit,
        ResyncEvent::Hashed(_) => stage is Hash,
        ResyncEvent::ConflictChecked(_) => stage is Conflict,
        ResyncEvent::Contained(_) => stage is Containment,
        ResyncEvent::Prepared(_) => stage is Prepare,
        ResyncEvent::Swapped(_) => stage is Swap,
        ResyncEvent::LockUpdated(_) => stage is LockUpdate,
        ResyncEvent::RolledBack(_) => stage is SwapRollback || stage is LockRollback,
    }
}

/// A failure's detail, with the rollback's own failure appended.
pub open spec fn with_rollback(e: Seq<char>, rolled: Result<(), String>) -> Seq<char> {
    match rolled {
        Ok(_) => e,
        Err(rb) => e + "; rollback also failed: "@ + rb@,
    }
}

/// The transition table of the resync transaction.
pub open spec fn resync_transition(
    name: Seq<char>,
    stage: ResyncStage,
    event: ResyncEvent,
    next: ResyncStage,
    action: ResyncAction,
) -> bool {
    let fail = |e: ResyncError| next is Done && action == ResyncAction::Fail(e);
    let go = |s: ResyncStage| next == s && action is Continue;
    match event {
        ResyncEvent::Guard(Err(m)) => fail(ResyncError::Locked(m)),
        ResyncEvent::Guard(Ok(_)) => go(ResyncStage::Targets),
        ResyncEvent::Targets(n) => if n == 0 {
            fail(ResyncError::NotInstalled)
        } else {
            go(ResyncStage::Unchanged)
        },
        ResyncEvent::Unchanged(Err(m)) => fail(ResyncError::StaleFetch(m)),
        ResyncEvent::Unchanged(Ok(_)) => go(ResyncStage::Parse),
        ResyncEvent::Parsed(Err(m)) => fail(ResyncError::Parse(m)),
        ResyncEvent::Parsed(Ok(declared)) => if declared@ != name {
            fail(ResyncError::Renamed { new_name: declared })
        } else {
            go(ResyncStage::Audit)
        },
        ResyncEvent::Audited(Err(m)) => fail(ResyncError::Audit(m)),
        ResyncEvent::Audited(Ok(_)) => go(ResyncStage::Hash),
        ResyncEvent::Hashed(Err(m)) => fail(ResyncError::Hash(m)),
        ResyncEvent::Hashed(Ok(_)) => go(ResyncStage::Conflict),
        ResyncEvent::ConflictChecked(Err(e)) => fail(e),
        ResyncEvent::ConflictChecked(Ok(_)) => go(ResyncStage::Containment),
        ResyncEvent::Contained(Err(m)) => fail(ResyncError::OutOfTree(m)),
        ResyncEvent::Contained(Ok(_)) => go(ResyncStage::Prepare),
        ResyncEvent::Prepared(Err(m)) => fail(ResyncError::Swap(m)),
        ResyncEvent::Prepared(Ok(_)) => go(ResyncStage::Swap),
        ResyncEvent::Swapped(Err(m)) => next == ResyncStage::SwapRollback(m) && action is RollBack,
        ResyncEvent::Swapped(Ok(_)) => go(ResyncStage::LockUpdate),
        ResyncEvent::LockUpdated(Err(m)) => next == ResyncStage::LockRollback(m) && action is RollBack,
        ResyncEvent::LockUpdated(Ok(_)) => next is Done && action is Commit,
        ResyncEvent::RolledBack(rolled) => match stage {
            ResyncStage::SwapRollback(e) => next is Done && (action matches ResyncAction::Fail(
                ResyncError::Swap(d),
            ) && d@ == with_rollback(e@, rolled)),
            ResyncStage::LockRollback(e) => next is Done && (action matches ResyncAction::Fail(
                ResyncError::LockUpdate(d),
            ) && d@ == with_rollback(e@, rolled)),
            _ => false,
        },
    }
}

fn detail_with_rollback(e: String, rolled: Result<(), String>) -> (d: String)
    ensures
        d@ == with_rollback(e@, rolled),
{
    match rolled {
        Ok(()) => e,
        Err(rb) => quoted_message(e.as_str(), "; rollback also failed: ", rb.as_str()),
    }
}

/// The audit stage's answer for `req`: the fetched tree is checked as an
/// install's is (see [`guard_fetched_source`]), with the request's
/// `force_unsafe` as the override. A report the engine blocks refuses the
/// resync with the audit's refusal message, unless overridden; a tree that
/// could not be audited, or any other report, passes.
pub fn resync_audit(req: &ResyncRequest, audited: Result<AuditReport, String>, blocks: bool) -> (r: Result<(), String>)
    ensures
        r is Err <==> (audited is Ok && blocks && !req.force_unsafe),
        r matches Err(m) ==> (audited matches Ok(rep) && is_refusal(m@, req.name@, rep)),
{
    match guard_fetched_source(req.name, audited, blocks, req.force_unsafe) {
        Ok(_) => Ok(()),
        Err(ConfigError::ValidationFailed(m)) => Err(m),
        Err(_) => Ok(()),
    }
}

/// The report of a committed resync: every installed target swapped, and
/// the fetched folder's hash the lock was re-stamped with.
pub fn resync_report(swapped: Vec<String>, updated_hash: String) -> (r: ResyncReport)
    ensures
        r.swapped@ == swapped@,
        r.updated_hash@ == updated_hash@,
{
    ResyncReport { swapped, updated_hash }
}

/// One step of the resync transaction. Nothing is mutated before the swap;
/// a failed swap or lock re-stamp is always followed by a rollback of every
/// replaced target before the failure is reported.
pub fn resync_step(name: &str, stage: ResyncStage, event: ResyncEvent) -> (r: (ResyncStage, ResyncAction))
    requires
        resync_answers(stage, event),
    ensures
        resync_transition(name@, stage, event, r.0, r.1),
        (r.0 is Done) == (r.1 is Fail || r.1 is Commit),
        r.1 is RollBack ==> (r.0 is SwapRollback || r.0 is LockRollback),
        r.1 is Commit ==> stage is LockUpdate,
{
    let fail = |e: ResyncError| -> (r: (ResyncStage, ResyncAction))
        ensures
            r == (ResyncStage::Done, ResyncAction::Fail(e)),
        { (ResyncStage::Done, ResyncAction::Fail(e)) };
    match event {
        ResyncEvent::Guard(Err(m)) => fail(ResyncError::Locked(m)),
        ResyncEvent::Guard(Ok(())) => (ResyncStage::Targets, ResyncAction::Continue),
        ResyncEvent::Targets(n) => if n == 0 {
            fail(ResyncError::NotInstalled)
        } else {
            (ResyncStage::Unchanged, ResyncAction::Continue)
        },
        ResyncEvent::Unchanged(Err(m)) => fail(ResyncError::StaleFetch(m)),
        ResyncEvent::Unchanged(Ok(())) => (ResyncStage::Parse, ResyncAction::Continue),
        ResyncEvent::Parsed(Err(m)) => fail(ResyncError::Parse(m)),
        ResyncEvent::Parsed(Ok(declared)) => if !str_eq(declared.as_str(), name) {
            fail(ResyncError::Renamed { new_name: declared })
        } else {
            (ResyncStage::Audit, ResyncAction::Continue)
        },
        ResyncEvent::Audited(Err(m)) => fail(ResyncError::Audit(m)),
        ResyncEvent::Audited(Ok(())) => (ResyncStage::Hash, ResyncAction::Continue),
        ResyncEvent::Hashed(Err(m)) => fail(ResyncError::Hash(m)),
        ResyncEvent::Hashed(Ok(_)) => (ResyncStage::Conflict, ResyncAction::Continue),
        ResyncEvent::ConflictChecked(Err(e)) => fail(e),
        ResyncEvent::ConflictChecked(Ok(())) => (ResyncStage::Containment, ResyncAction::Continue),
        ResyncEvent::Contained(Err(m)) => fail(ResyncError::OutOfTree(m)),
        ResyncEvent::Contained(Ok(())) => (ResyncStage::Prepare, ResyncAction::Continue),
        ResyncEvent::Prepared(Err(m)) => fail(ResyncError::Swap(m)),
        ResyncEvent::Prepared(Ok(())) => (ResyncStage::Swap, ResyncAction::Continue),
        ResyncEvent::Swapped(Err(m)) => (ResyncStage::SwapRollback(m), ResyncAction::RollBack),
        ResyncEvent::Swapped(Ok(())) => (ResyncStage::LockUpdate, ResyncAction::Continue),
        ResyncEvent::LockUpdated(Err(m)) => (ResyncStage::LockRollback(m), ResyncAction::RollBack),
        ResyncEvent::LockUpdated(Ok(())) => (ResyncStage::Done, ResyncAction::Commit),
        ResyncEvent::RolledBack(rolled) => match stage {
            ResyncStage::SwapRollback(e) => fail(ResyncError::Swap(detail_with_rollback(e, rolled))),
            ResyncStage::LockRollback(e) => fail(ResyncError::LockUpdate(detail_with_rollback(e, rolled))),
            _ => (ResyncStage::Done, ResyncAction::Commit),
        },
    }
}

/// The stages before the swap: nothing has been written yet.
pub open spec fn before_swap(s: ResyncStage) -> bool {
    s is Guard || s is Targets || s is Unchanged || s is Parse || s is Audit || s is Hash || s is Conflict
        || s is Containment || s is Prepare
}

/// Every refusal before the swap writes nothing: no step before it rolls
/// anything back or commits, and each leads only to a later stage before the
/// swap, to the swap, or to a failure.
pub proof fn lemma_resync_refusals_before_swap_write_nothing(
    name: Seq<char>,
    stage: ResyncStage,
    event: ResyncEvent,
    next: ResyncStage,
    action: ResyncAction,
)
    requires
        before_swap(stage),
        resync_answers(stage, event),
        resync_transition(name, stage, event, next, action),
    ensures
        !(action is RollBack),
        !(action is Commit),
        action is Continue ==> before_swap(next) || next is Swap,
        action is Fail ==> next is Done,
{
}

/// A failed swap or lock re-stamp always rolls every target back before
/// the failure is reported: the failure leads to a rollback stage, and a
/// rollback stage leads only to the failure.
pub proof fn lemma_resync_failures_roll_back_first(
    name: Seq<char>,
    stage: ResyncStage,
    event: ResyncEvent,
    next: ResyncStage,
    action: ResyncAction,
)
    requires
        resync_answers(stage, event),
        resync_transition(name, stage, event, next, action),
    ensures
        (stage is Swap || stage is LockUpdate) && !(action is Continue) && !(action is Commit) ==> action is RollBack
            && (next is SwapRollback || next is LockRollback),
        (stage is SwapRollback || stage is LockRollback) ==> action is Fail && next is Done,
{
}

/// A failed check before the swap refuses the resync with that failure:
/// the step ends, nothing is staged or swapped, and the error reported is
/// the one the check gave (a differing copy beside the Master is refused as
/// the conflict it was reported as; no installed copy is `NotInstalled`).
pub proof fn lemma_failed_check_refuses(
    name: Seq<char>,
    stage: ResyncStage,
    event: ResyncEvent,
    next: ResyncStage,
    action: ResyncAction,
)
    requires
        resync_transition(name, stage, event, next, action),
    ensures
        event matches ResyncEvent::ConflictChecked(Err(e)) ==> next is Done && action == ResyncAction::Fail(e),
        event matches ResyncEvent::Guard(Err(m)) ==> next is Done && action == ResyncAction::Fail(ResyncError::Locked(m)),
        event matches ResyncEvent::Targets(n) ==> (n == 0 <==> action is Fail),
        event matches ResyncEvent::Targets(n) && n == 0 ==> next is Done && action == ResyncAction::Fail(
            ResyncError::NotInstalled,
        ),
        event matches ResyncEvent::Unchanged(Err(m)) ==> next is Done && action == ResyncAction::Fail(
            ResyncError::StaleFetch(m),
        ),
        event matches ResyncEvent::Parsed(Err(m)) ==> next is Done && action == ResyncAction::Fail(ResyncError::Parse(m)),
        event matches ResyncEvent::Parsed(Ok(d)) ==> (d@ != name <==> next is Done) && (d@ != name ==> action
            == ResyncAction::Fail(ResyncError::Renamed { new_name: d })),
        event matches ResyncEvent::Audited(Err(m)) ==> next is Done && action == ResyncAction::Fail(ResyncError::Audit(m)),
        event matches ResyncEvent::Hashed(Err(m)) ==> next is Done && action == ResyncAction::Fail(ResyncError::Hash(m)),
        event matches ResyncEvent::Contained(Err(m)) ==> next is Done && action == ResyncAction::Fail(
            ResyncError::OutOfTree(m),
        ),
        event matches ResyncEvent::Prepared(Err(m)) ==> next is Done && action == ResyncAction::Fail(ResyncError::Swap(m)),
        event matches ResyncEvent::Swapped(Err(_)) ==> action is RollBack,
        event matches ResyncEvent::LockUpdated(Err(_)) ==> action is RollBack,
        action is Commit ==> event matches ResyncEvent::LockUpdated(Ok(_)),
{
}

/// After a failed swap or lock re-stamp, the rollback's outcome ends the
/// resync with the original failure (a swap failure as `Swap`, a lock
/// failure as `LockUpdate`), its detail naming the rollback's own failure
/// when there was one. A resync commits only once the lock was re-stamped.
pub proof fn lemma_rollback_reports_the_original_failure(
    name: Seq<char>,
    stage: ResyncStage,
    rolled: Result<(), String>,
    next: ResyncStage,
    action: ResyncAction,
)
    requires
        resync_transition(name, stage, ResyncEvent::RolledBack(rolled), next, action),
    ensures
        next is Done,
        stage matches ResyncStage::SwapRollback(e) ==> (action matches ResyncAction::Fail(ResyncError::Swap(d)) && (
        rolled is Ok ==> d@ == e@) && (rolled matches Err(rb) ==> d@ == e@ + "; rollback also failed: "@ + rb@)),
        stage matches ResyncStage::LockRollback(e) ==> (action matches ResyncAction::Fail(ResyncError::LockUpdate(d))
            && (rolled is Ok ==> d@ == e@) && (rolled matches Err(rb) ==> d@ == e@ + "; rollback also failed: "@
            + rb@)),
{
}

} // verus!
