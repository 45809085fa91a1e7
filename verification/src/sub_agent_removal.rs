//! Removing a sub-agent as a transaction. Its backing file is parked as a
//! tombstone first, then the entry leaves the config and the config is
//! saved: a save that fails puts the file back and the entry back, so a
//! reported failure changes nothing; a save that succeeds drops the
//! tombstone.
//!
//! [`remove_sub_agent_step`] takes the stage and what the caller observed or
//! got back, changes the manager's in-memory config where the transaction
//! says so, and says what to do next.

use vstd::prelude::*;

use crate::manager::{
    agent_names, agents_now, find_agent, flat_outcome, flat_plan, is_no_config, is_not_found, is_unsupported,
    no_config, not_found, outcome, unsupported, ConfigError, ConfigManager, SubAgent,
};
use crate::models::opt_view;
use crate::removal::{vs, RemovalOutcome};
use crate::table::key_pos;
use crate::text::{chars_of, concat_chars, owned, rfind_char, slice_chars, string_from, last_pos};

verus! {

/// Where a backing file is parked while its removal is saved:
/// `path.with_extension("md.aghub-tomb")`, its last extension (if its file
/// name has one) replaced.
pub open spec fn tomb_of(p: Seq<char>) -> Seq<char> {
    let slash = last_pos(p, '/');
    let dot = last_pos(p, '.');
    if dot > slash + 1 {
        p.take(dot) + ".md.aghub-tomb"@
    } else {
        p + ".md.aghub-tomb"@
    }
}

/// The tombstone path of the backing file `path`.
pub fn tomb_path(path: &str) -> (r: String)
    ensures
        r@ == tomb_of(path@),
{
    let s = chars_of(path);
    let suffix = chars_of(".md.aghub-tomb");
    proof {
        reveal_strlit(".md.aghub-tomb");
    }
    let slash: usize = match rfind_char(&s, '/') {
        Some(i) => i + 1,
        None => 0,
    };
    let out = match rfind_char(&s, '.') {
        Some(d) => if d > slash {
            let stem = slice_chars(&s, 0, d);
            assert(stem@ =~= s@.take(d as int));
            concat_chars(&stem, &suffix)
        } else {
            concat_chars(&s, &suffix)
        },
        None => concat_chars(&s, &suffix),
    };
    string_from(&out)
}

/// The source a caller copied before asking for the removal, to be checked
/// against the entry as it stands under the lock.
#[derive(Debug)]
pub struct ExpectedSource {
    /// The sub-agent as captured.
    pub agent: SubAgent,
    /// Both backing paths resolve to the same file (or neither has one).
    pub same_path: bool,
    /// The removal follows a copy out of a Codex agent.
    pub codex_copy: bool,
    /// For such a copy: whether the Codex file gained fields aghub does not
    /// manage (read from the current backing file).
    pub unmanaged: Result<bool, ConfigError>,
}

/// The entry still has the source the caller captured.
pub open spec fn same_source(current: SubAgent, expected: ExpectedSource) -> bool {
    &&& expected.same_path
    &&& (current.source_path is Some) == (expected.agent.source_path is Some)
    &&& current.name@ == expected.agent.name@
    &&& opt_view(current.description) == opt_view(expected.agent.description)
    &&& opt_view(current.instruction) == opt_view(expected.agent.instruction)
}

/// How far a removal has come.
#[derive(Debug, Clone, Copy, PartialEq, Eq, Structural)]
pub enum SubRemovalStage {
    /// Deciding the plan (the caller has re-read the config).
    Start,
    /// Parking the backing file as a tombstone.
    Park,
    /// Saving the config without the entry.
    Save,
    /// Dropping the tombstone after the save.
    Drop,
    Done,
}

/// What a removal has learned so far.
#[derive(Debug)]
pub struct SubRemovalState {
    pub stage: SubRemovalStage,
    /// The backing file, when the entry has one.
    pub path: Option<String>,
    /// Its tombstone path.
    pub tomb: String,
    /// The backing file was moved to the tombstone.
    pub parked: bool,
    /// The entry taken out of the config, to put back on a failed save.
    pub removed: Option<SubAgent>,
}

/// What parking the backing file gave.
#[derive(Debug)]
pub enum ParkResult {
    /// A tombstone is already there: nothing was moved.
    TombExists,
    /// Looking for a tombstone failed.
    StatFailed(String),
    /// The file was moved to the tombstone.
    Moved,
    /// The file was already gone.
    Missing,
    /// Moving it failed.
    MoveFailed(String),
}

/// What the caller observed, or got back, for the current stage.
#[derive(Debug)]
pub enum SubRemovalEvent {
    /// The request, with the caller's captured source when the removal
    /// follows a copy.
    Start { dry_run: bool, confirm: bool, expected: Option<ExpectedSource> },
    Parked(ParkResult),
    Saved(Result<(), ConfigError>),
    /// Deleting the tombstone (an already-gone one is `Ok`).
    Dropped(Result<(), String>),
}

/// What the caller does next.
#[derive(Debug)]
pub enum SubRemovalAction {
    /// Move `path` to `tomb`, unless a tombstone is already there.
    Park { path: String, tomb: String },
    /// Save the sub-agents of the manager's config.
    Save,
    /// Delete the tombstone.
    DropTomb { tomb: String },
    /// Move the tombstone back to its file (when there is one), then report
    /// `error`.
    RestoreThenFail { restore: Option<(String, String)>, error: ConfigError },
    Fail(ConfigError),
    Finish(RemovalOutcome),
}

pub open spec fn tomb_exists_message(tomb: Seq<char>) -> Seq<char> {
    "Sub-agent recovery tombstone already exists: "@ + tomb
}

/// The decision at the start, before anything is moved: the same refusals
/// and plan as [`ConfigManager::remove_sub_agent_planned`], then a changed
/// captured source refuses.
pub open spec fn start_spec(
    m: ConfigManager,
    name: Seq<char>,
    dry_run: bool,
    confirm: bool,
    expected: Option<ExpectedSource>,
    next: SubRemovalState,
    action: SubRemovalAction,
    m2: ConfigManager,
) -> bool {
    let done = next.stage == SubRemovalStage::Done;
    match m.config {
        None => done && m2 == m && (action matches SubRemovalAction::Fail(e) && is_no_config(e)),
        Some(c) => if !dry_run && !m.supports_sub_agents {
            done && m2 == m && (action matches SubRemovalAction::Fail(e) && is_unsupported(
                e,
                "mutate"@,
                "sub-agent"@,
                m.agent@,
            ))
        } else if !agent_names(c.sub_agents@).contains(name) {
            done && m2 == m && (action matches SubRemovalAction::Fail(e) && is_not_found(e, "sub_agent"@, name))
        } else {
            let i = key_pos(agent_names(c.sub_agents@), name);
            let cur = c.sub_agents@[i];
            match expected {
                Some(x) if !same_source(cur, x) => done && m2 == m && (action matches SubRemovalAction::Fail(
                    ConfigError::InvalidConfig(msg),
                ) && msg@ == "Sub-agent '"@ + name + "' changed during reconcile; the original was not removed"@),
                Some(x) if x.codex_copy && cur.source_path is None => done && m2 == m && (
                action matches SubRemovalAction::Fail(ConfigError::InvalidConfig(msg)) && msg@
                    == "Codex sub-agent source path unavailable"@),
                Some(x) if x.codex_copy && x.unmanaged is Err => done && m2 == m && action
                    == SubRemovalAction::Fail(x.unmanaged->Err_0),
                Some(x) if x.codex_copy && x.unmanaged == Ok::<bool, ConfigError>(true) => done && m2 == m && (
                action matches SubRemovalAction::Fail(ConfigError::InvalidConfig(msg)) && msg@ == "Sub-agent '"@ + name
                    + "' gained unmanaged fields during reconcile; the original was not removed"@),
                _ => if dry_run {
                    done && m2 == m && (action matches SubRemovalAction::Finish(o) && flat_outcome(o, false) && vs(
                        o.plan.paths@,
                    ) == match cur.source_path {
                        Some(p) => seq![p@],
                        None => Seq::<Seq<char>>::empty(),
                    })
                } else {
                    match cur.source_path {
                        Some(p) => next.stage == SubRemovalStage::Park && m2 == m && next.path == Some(p)
                            && next.tomb@ == tomb_of(p@) && (action matches SubRemovalAction::Park { path, tomb }
                            && path == p && tomb@ == tomb_of(p@)),
                        None => next.stage == SubRemovalStage::Save && next.path is None && !next.parked
                            && next.removed == Some(cur) && agents_now(m2, c, c.sub_agents@.remove(i))
                            && action is Save,
                    }
                },
            }
        },
    }
}

/// The transition table of a sub-agent removal (see
/// [`remove_sub_agent_step`]); `m` and `m2` are the manager before and after.
pub open spec fn sub_removal_spec(
    m: ConfigManager,
    name: Seq<char>,
    st: SubRemovalState,
    event: SubRemovalEvent,
    next: SubRemovalState,
    action: SubRemovalAction,
    m2: ConfigManager,
) -> bool {
    let done = next.stage == SubRemovalStage::Done;
    match (st.stage, event) {
        (SubRemovalStage::Start, SubRemovalEvent::Start { dry_run, confirm, expected }) => start_spec(
            m,
            name,
            dry_run,
            confirm,
            expected,
            next,
            action,
            m2,
        ),
        (SubRemovalStage::Park, SubRemovalEvent::Parked(ParkResult::TombExists)) => done && m2 == m && (
        action matches SubRemovalAction::Fail(ConfigError::InvalidConfig(msg)) && msg@ == tomb_exists_message(
            st.tomb@,
        )),
        (SubRemovalStage::Park, SubRemovalEvent::Parked(ParkResult::StatFailed(e))) => done && m2 == m && action
            == SubRemovalAction::Fail(ConfigError::Io(e)),
        (SubRemovalStage::Park, SubRemovalEvent::Parked(ParkResult::MoveFailed(e))) => done && m2 == m && action
            == SubRemovalAction::Fail(ConfigError::Io(e)),
        (SubRemovalStage::Park, SubRemovalEvent::Parked(r)) => match m.config {
            Some(c) if agent_names(c.sub_agents@).contains(name) => {
                let i = key_pos(agent_names(c.sub_agents@), name);
                &&& next.stage == SubRemovalStage::Save
                &&& next.path == st.path && next.tomb == st.tomb
                &&& next.parked == (r is Moved)
                &&& next.removed == Some(c.sub_agents@[i])
                &&& agents_now(m2, c, c.sub_agents@.remove(i))
                &&& action is Save
            },
            _ => done && m2 == m && (action matches SubRemovalAction::Fail(ConfigError::InvalidConfig(_))),
        },
        (SubRemovalStage::Save, SubRemovalEvent::Saved(Err(e))) => {
            &&& done
            &&& match (m.config, st.removed) {
                (Some(c), Some(a)) => agents_now(m2, c, c.sub_agents@.push(a)),
                _ => m2 == m,
            }
            &&& action matches SubRemovalAction::RestoreThenFail { restore, error }
            &&& error == e
            &&& restore == (if st.parked && st.path is Some {
                Some((st.tomb, st.path->Some_0))
            } else {
                None
            })
        },
        (SubRemovalStage::Save, SubRemovalEvent::Saved(Ok(()))) => m2 == m && if st.parked {
            next.stage == SubRemovalStage::Drop && next.path == st.path && (action matches SubRemovalAction::DropTomb {
                tomb,
            } && tomb == st.tomb)
        } else {
            done && (action matches SubRemovalAction::Finish(o) && flat_outcome(o, true) && vs(o.plan.paths@)
                == match st.path {
                Some(p) => seq![p@],
                None => Seq::<Seq<char>>::empty(),
            })
        },
        (SubRemovalStage::Drop, SubRemovalEvent::Dropped(Err(e))) => done && m2 == m && action
            == SubRemovalAction::Fail(ConfigError::Io(e)),
        (SubRemovalStage::Drop, SubRemovalEvent::Dropped(Ok(()))) => done && m2 == m && (
        action matches SubRemovalAction::Finish(o) && flat_outcome(o, true) && vs(o.plan.paths@) == match st.path {
            Some(p) => seq![p@],
            None => Seq::<Seq<char>>::empty(),
        }),
        _ => done && m2 == m && (action matches SubRemovalAction::Fail(ConfigError::InvalidConfig(_))),
    }
}

fn plan_paths(path: &Option<String>) -> (r: Vec<String>)
    ensures
        vs(r@) == match *path {
            Some(p) => seq![p@],
            None => Seq::<Seq<char>>::empty(),
        },
{
    let mut v: Vec<String> = Vec::new();
    match path {
        Some(p) => v.push(p.clone()),
        None => {},
    }
    assert(vs(v@) =~= match *path {
        Some(p) => seq![p@],
        None => Seq::<Seq<char>>::empty(),
    });
    v
}

fn done_state(st: &SubRemovalState) -> (r: SubRemovalState)
    ensures
        r.stage == SubRemovalStage::Done,
        r.path == st.path,
        r.tomb == st.tomb,
        r.parked == st.parked,
{
    SubRemovalState {
        stage: SubRemovalStage::Done,
        path: crate::models::clone_opt(&st.path),
        tomb: st.tomb.clone(),
        parked: st.parked,
        removed: None,
    }
}

/// Take the entry `name` out of the manager's config; it is returned, and
/// the others stay in order.
fn take_entry(m: &mut ConfigManager, name: &str) -> (r: Option<SubAgent>)
    ensures
        match old(m).config {
            Some(c) if agent_names(c.sub_agents@).contains(name@) => {
                let i = key_pos(agent_names(c.sub_agents@), name@);
                r == Some(c.sub_agents@[i]) && agents_now(*final(m), c, c.sub_agents@.remove(i))
                    && final(m).agent == old(m).agent && final(m).supports_sub_agents == old(m).supports_sub_agents
            },
            _ => r is None && *final(m) == *old(m),
        },
{
    let mut c = match m.config.take() {
        None => {
            return None;
        },
        Some(c) => c,
    };
    match find_agent(&c.sub_agents, name) {
        None => {
            m.config = Some(c);
            None
        },
        Some(i) => {
            let a = c.sub_agents.remove(i);
            m.config = Some(c);
            Some(a)
        },
    }
}

/// One step of removing the sub-agent `name`. In order: decide (nothing
/// loaded, an agent without sub-agents (unless a dry run), an unknown
/// name, or a source that changed since the caller captured it, refuse; a
/// dry run reports the plan); park the backing file as a tombstone (one
/// already there refuses); take the entry out of the config and save; a
/// failed save puts the entry back and the file back; a saved removal drops
/// the tombstone.
pub fn remove_sub_agent_step(m: &mut ConfigManager, name: &str, st: SubRemovalState, event: SubRemovalEvent) -> (r: (
    SubRemovalState,
    SubRemovalAction,
))
    ensures
        sub_removal_spec(*old(m), name@, st, event, r.0, r.1, *final(m)),
{
    match (st.stage, event) {
        (SubRemovalStage::Start, SubRemovalEvent::Start { dry_run, confirm, expected }) => {
            let c = match &m.config {
                None => {
                    return (done_state(&st), SubRemovalAction::Fail(no_config()));
                },
                Some(c) => c,
            };
            if !dry_run && !m.supports_sub_agents {
                return (done_state(&st), SubRemovalAction::Fail(unsupported("mutate", "sub-agent", m.agent.as_str())));
            }
            let i = match find_agent(&c.sub_agents, name) {
                None => {
                    return (done_state(&st), SubRemovalAction::Fail(not_found("sub_agent", name)));
                },
                Some(i) => i,
            };
            let cur = &c.sub_agents[i];
            match expected {
                Some(x) => {
                    let same = x.same_path && cur.source_path.is_some() == x.agent.source_path.is_some()
                        && crate::text::str_eq(cur.name.as_str(), x.agent.name.as_str()) && crate::models::opt_eq(
                        &cur.description,
                        &x.agent.description,
                    ) && crate::models::opt_eq(&cur.instruction, &x.agent.instruction);
                    if !same {
                        let a = crate::lock::quoted_message("Sub-agent '", name, "' changed during reconcile; the original was not removed");
                        return (done_state(&st), SubRemovalAction::Fail(ConfigError::InvalidConfig(a)));
                    }
                    if x.codex_copy {
                        if cur.source_path.is_none() {
                            return (
                                done_state(&st),
                                SubRemovalAction::Fail(ConfigError::InvalidConfig(owned("Codex sub-agent source path unavailable"))),
                            );
                        }
                        match x.unmanaged {
                            Err(e) => {
                                return (done_state(&st), SubRemovalAction::Fail(e));
                            },
                            Ok(true) => {
                                let a = crate::lock::quoted_message(
                                    "Sub-agent '",
                                    name,
                                    "' gained unmanaged fields during reconcile; the original was not removed",
                                );
                                return (done_state(&st), SubRemovalAction::Fail(ConfigError::InvalidConfig(a)));
                            },
                            Ok(false) => {},
                        }
                    }
                },
                None => {},
            }
            if dry_run {
                let paths = plan_paths(&cur.source_path);
                return (done_state(&st), SubRemovalAction::Finish(outcome(flat_plan(paths), false)));
            }
            match &cur.source_path {
                Some(p) => {
                    let tomb = tomb_path(p.as_str());
                    let next = SubRemovalState {
                        stage: SubRemovalStage::Park,
                        path: Some(p.clone()),
                        tomb: tomb.clone(),
                        parked: false,
                        removed: None,
                    };
                    (next, SubRemovalAction::Park { path: p.clone(), tomb })
                },
                None => {
                    let removed = take_entry(m, name);
                    let next = SubRemovalState {
                        stage: SubRemovalStage::Save,
                        path: None,
                        tomb: st.tomb.clone(),
                        parked: false,
                        removed,
                    };
                    (next, SubRemovalAction::Save)
                },
            }
        },
        (SubRemovalStage::Park, SubRemovalEvent::Parked(r)) => match r {
            ParkResult::TombExists => {
                let msg = crate::lock::quoted_message("Sub-agent recovery tombstone already exists: ", st.tomb.as_str(), "");
                proof {
                    reveal_strlit("");
                    assert(msg@ =~= tomb_exists_message(st.tomb@));
                }
                (done_state(&st), SubRemovalAction::Fail(ConfigError::InvalidConfig(msg)))
            },
            ParkResult::StatFailed(e) => (done_state(&st), SubRemovalAction::Fail(ConfigError::Io(e))),
            ParkResult::MoveFailed(e) => (done_state(&st), SubRemovalAction::Fail(ConfigError::Io(e))),
            ParkResult::Moved | ParkResult::Missing => {
                let parked = match r {
                    ParkResult::Moved => true,
                    _ => false,
                };
                let removed = take_entry(m, name);
                match removed {
                    Some(a) => {
                        let next = SubRemovalState {
                            stage: SubRemovalStage::Save,
                            path: crate::models::clone_opt(&st.path),
                            tomb: st.tomb.clone(),
                            parked,
                            removed: Some(a),
                        };
                        (next, SubRemovalAction::Save)
                    },
                    None => (
                        done_state(&st),
                        SubRemovalAction::Fail(ConfigError::InvalidConfig(owned("remove sub-agent: entry vanished"))),
                    ),
                }
            },
        },
        (SubRemovalStage::Save, SubRemovalEvent::Saved(Err(e))) => {
            let restore = if st.parked {
                match &st.path {
                    Some(p) => Some((st.tomb.clone(), p.clone())),
                    None => None,
                }
            } else {
                None
            };
            match (m.config.take(), st.removed) {
                (Some(mut c), Some(a)) => {
                    c.sub_agents.push(a);
                    m.config = Some(c);
                },
                (c0, _) => {
                    m.config = c0;
                },
            }
            let fin = SubRemovalState {
                stage: SubRemovalStage::Done,
                path: st.path,
                tomb: st.tomb,
                parked: st.parked,
                removed: None,
            };
            (fin, SubRemovalAction::RestoreThenFail { restore, error: e })
        },
        (SubRemovalStage::Save, SubRemovalEvent::Saved(Ok(()))) => {
            if st.parked {
                let next = SubRemovalState {
                    stage: SubRemovalStage::Drop,
                    path: crate::models::clone_opt(&st.path),
                    tomb: st.tomb.clone(),
                    parked: true,
                    removed: None,
                };
                (next, SubRemovalAction::DropTomb { tomb: st.tomb })
            } else {
                let paths = plan_paths(&st.path);
                (done_state(&st), SubRemovalAction::Finish(outcome(flat_plan(paths), true)))
            }
        },
        (SubRemovalStage::Drop, SubRemovalEvent::Dropped(Err(e))) => (
            done_state(&st),
            SubRemovalAction::Fail(ConfigError::Io(e)),
        ),
        (SubRemovalStage::Drop, SubRemovalEvent::Dropped(Ok(()))) => {
            let paths = plan_paths(&st.path);
            (done_state(&st), SubRemovalAction::Finish(outcome(flat_plan(paths), true)))
        },
        _ => (
            done_state(&st),
            SubRemovalAction::Fail(ConfigError::InvalidConfig(owned("remove sub-agent: event out of order"))),
        ),
    }
}

/// A failed save changes nothing that the removal changed: the entry is
/// back in the config (after the others) and the parked file is moved back
/// before the failure is reported.
pub proof fn lemma_failed_save_restores(
    m: ConfigManager,
    name: Seq<char>,
    st: SubRemovalState,
    e: ConfigError,
    next: SubRemovalState,
    action: SubRemovalAction,
    m2: ConfigManager,
)
    requires
        st.stage == SubRemovalStage::Save,
        sub_removal_spec(m, name, st, SubRemovalEvent::Saved(Err(e)), next, action, m2),
    ensures
        next.stage == SubRemovalStage::Done,
        action matches SubRemovalAction::RestoreThenFail { restore, error } && error == e && (st.parked
            && st.path is Some ==> restore == Some((st.tomb, st.path->Some_0))),
        match (m.config, st.removed) {
            (Some(c), Some(a)) => agents_now(m2, c, c.sub_agents@.push(a)),
            _ => m2 == m,
        },
{
}

pub open spec fn is_dry_start(e: SubRemovalEvent) -> bool {
    match e {
        SubRemovalEvent::Start { dry_run, .. } => dry_run,
        _ => false,
    }
}

pub open spec fn parked_or_gone(e: SubRemovalEvent) -> bool {
    match e {
        SubRemovalEvent::Parked(ParkResult::Moved) | SubRemovalEvent::Parked(ParkResult::Missing) => true,
        _ => false,
    }
}

pub open spec fn saved_ok(e: SubRemovalEvent) -> bool {
    match e {
        SubRemovalEvent::Saved(Ok(_)) => true,
        _ => false,
    }
}

pub open spec fn dropped_ok(e: SubRemovalEvent) -> bool {
    match e {
        SubRemovalEvent::Dropped(Ok(_)) => true,
        _ => false,
    }
}

pub open spec fn finished_executed(a: SubRemovalAction) -> bool {
    match a {
        SubRemovalAction::Finish(o) => o.executed,
        _ => false,
    }
}

/// A sub-agent removal changes the config only once the backing file is
/// parked (or was already gone): a dry run and a refusal (an existing
/// tombstone among them) leave the manager as it was; parking takes exactly
/// that entry out; a removal is reported done only after a successful save
/// (and, when a file was parked, after its tombstone was dropped).
pub proof fn lemma_sub_removal_order(
    m: ConfigManager,
    name: Seq<char>,
    st: SubRemovalState,
    event: SubRemovalEvent,
    next: SubRemovalState,
    action: SubRemovalAction,
    m2: ConfigManager,
)
    requires
        sub_removal_spec(m, name, st, event, next, action, m2),
    ensures
        (st.stage == SubRemovalStage::Start && is_dry_start(event)) ==> m2 == m && next.stage == SubRemovalStage::Done,
        action is Fail ==> m2 == m,
        (st.stage == SubRemovalStage::Park && parked_or_gone(event) && m.config is Some && agent_names(
            m.config->Some_0.sub_agents@,
        ).contains(name)) ==> action is Save && agents_now(
            m2,
            m.config->Some_0,
            m.config->Some_0.sub_agents@.remove(key_pos(agent_names(m.config->Some_0.sub_agents@), name)),
        ),
        (st.stage == SubRemovalStage::Park && event == SubRemovalEvent::Parked(ParkResult::Moved) && action is Save)
            ==> next.parked,
        finished_executed(action) ==> ((st.stage == SubRemovalStage::Save && saved_ok(event) && !st.parked) || (
        st.stage == SubRemovalStage::Drop && dropped_ok(event))),
        (st.stage == SubRemovalStage::Save && saved_ok(event) && st.parked) ==> action == (SubRemovalAction::DropTomb {
            tomb: st.tomb,
        }),
{
}

} // verus!
