//! Adding a skill to one agent, written by hand or read from a local
//! directory: the skill goes into the shared Master store once and this
//! agent's skills dir gets a Referrer linking to it.
//!
//! The flow is a state machine: [`add_skill_step`] takes the stage and what
//! the caller observed or got back, and says what to do next. Every refusal
//! before the Master stage writes nothing; after it, a failure names what
//! this call created for the caller to undo.

use vstd::prelude::*;

use crate::classify::LinkNeed;
use crate::install::AgentInstallResult;
use crate::lock::quoted_message;
use crate::manager::{exists_error, is_exists, ConfigError, ConfigManager, SkillAdd};
use crate::models::{same_skill, Skill};
use crate::text::str_eq;

verus! {

/// What an add is asked to do.
#[derive(Debug)]
pub struct AddRequest {
    /// The skill as requested (for a path install: as read, under its
    /// installed name).
    pub skill: Skill,
    /// Read from a local directory rather than written by hand.
    pub from_path: bool,
    /// The name the source declares (a path install may install it under
    /// another name).
    pub source_name: String,
    /// A path install was asked for a name of the caller's choosing.
    pub as_name_given: bool,
    /// Where this agent needs its Referrer.
    pub link_need: LinkNeed,
    /// `<store>/<folder name>/SKILL.md`: the Master's skill file.
    pub master_md: String,
}

/// How far an add has come.
#[derive(Debug, Clone, Copy, PartialEq, Eq, Structural)]
pub enum AddStage {
    /// Taking the mutation lock and re-reading the config under it.
    Lock,
    /// Looking for a skill of that name in the agent's config.
    Present,
    /// A hand-written skill: does the Master exist, else write it.
    Master,
    /// Writing the hand-written skill's Master.
    MasterWrite,
    /// Materializing the Master and this agent's Referrer.
    Materialize,
    /// Rewriting a freshly copied Master's `name:` to the installed name.
    Rename,
    /// Reading back an existing Master to report what is installed.
    ReadBack,
    /// Over.
    Done,
}

/// What an add has learned so far.
#[derive(Debug)]
pub struct AddState {
    pub stage: AddStage,
    /// This call wrote the Master.
    pub wrote_master: bool,
    /// The agent skills dirs where this call created a fresh Referrer.
    pub created_referrer_dirs: Vec<String>,
}

/// What the caller observed, or got back, for the current stage.
#[derive(Debug)]
pub enum AddEvent {
    /// The lock was taken and the config re-read, or why not.
    Locked(Result<(), ConfigError>),
    /// The skill of that name in the config, and whether this agent's slot
    /// is a link resolving to the Master.
    Present { existing: Option<Skill>, slot_links_master: bool },
    /// Whether the Master dir already exists.
    MasterChecked { exists: bool },
    /// Writing the Master's `SKILL.md`.
    MasterWritten(Result<(), ConfigError>),
    /// The materializer's rows, whether it wrote the Master, and the dirs
    /// where it created a Referrer; or its error.
    Materialized(Result<(Vec<AgentInstallResult>, bool, Vec<String>), ConfigError>),
    /// Rewriting the Master's name.
    Renamed(Result<(), String>),
    /// The existing Master, read back; `None` when it does not parse.
    ReadBack(Option<Skill>),
}

/// What a failure leaves to undo.
#[derive(Debug, PartialEq, Eq)]
pub enum AddUndo {
    /// Nothing was written.
    Nothing,
    /// Remove the Referrers this call created (in these dirs).
    Referrers { dirs: Vec<String> },
    /// Remove those Referrers and the Master this call wrote.
    ReferrersAndMaster { dirs: Vec<String> },
    /// Roll back a materialized install: the Referrers this call created.
    Materialized { dirs: Vec<String> },
}

/// What the caller does next.
#[derive(Debug)]
pub enum AddAction {
    /// Go on to the new stage and report what it asks for.
    Continue,
    /// Write the hand-written skill's Master (`SKILL.md` only).
    WriteMaster,
    /// Materialize the Master from the source (a path install) or the
    /// Master just found or written, and link this agent.
    Materialize,
    /// Rewrite the fresh Master's `name:` to the installed name.
    RewriteName,
    /// Read the existing Master back.
    ReadMaster,
    /// Fail with `error`, after undoing `undo`.
    Fail { undo: AddUndo, error: ConfigError },
    /// Done: report `result`, recording its skill in the config when it is
    /// a fresh install.
    Finish { result: Result<SkillAdd, ConfigError>, record: bool },
}

pub open spec fn unparsable_master_message(master_md: Seq<char>) -> Seq<char> {
    "the existing master at '"@ + master_md
        + "' does not parse, so nothing can read it and aghub cannot report what is installed. Fix or remove that master, then re-run."@
}

/// The skill an add reports when it wrote the Master: the request, with
/// the Master's skill file as its source and canonical path.
pub open spec fn installed_as(s: Skill, req: Skill, master_md: Seq<char>) -> bool {
    &&& s.name == req.name
    &&& s.description == req.description
    &&& s.enabled == req.enabled
    &&& s.author == req.author
    &&& s.version == req.version
    &&& s.tools@ == req.tools@
    &&& s.content == req.content
    &&& s.source_path matches Some(p) && p@ == master_md
    &&& s.canonical_path matches Some(p) && p@ == master_md
}

fn copy_strings(v: &Vec<String>) -> (r: Vec<String>)
    ensures
        r@ == v@,
{
    crate::models::clone_strings(v)
}

fn done(st: &AddState, action: AddAction) -> (r: (AddState, AddAction))
    ensures
        r.0.stage == AddStage::Done,
        r.0.wrote_master == st.wrote_master,
        r.0.created_referrer_dirs@ == st.created_referrer_dirs@,
        r.1 == action,
{
    (
        AddState {
            stage: AddStage::Done,
            wrote_master: st.wrote_master,
            created_referrer_dirs: copy_strings(&st.created_referrer_dirs),
        },
        action,
    )
}

fn at(stage: AddStage, st: &AddState, action: AddAction) -> (r: (AddState, AddAction))
    ensures
        r.0.stage == stage,
        r.0.wrote_master == st.wrote_master,
        r.0.created_referrer_dirs@ == st.created_referrer_dirs@,
        r.1 == action,
{
    (
        AddState { stage, wrote_master: st.wrote_master, created_referrer_dirs: copy_strings(&st.created_referrer_dirs) },
        action,
    )
}

fn record_fresh(req: &AddRequest, st: &AddState) -> (r: (AddState, AddAction))
    ensures
        r.0.stage == AddStage::Done,
        r.0.wrote_master == st.wrote_master,
        r.0.created_referrer_dirs@ == st.created_referrer_dirs@,
        r.1 matches AddAction::Finish { result: Ok(a), record: true } && installed_as(a.skill, req.skill, req.master_md@)
            && !a.already_installed && a.wrote_master == st.wrote_master && a.created_referrer_dirs@
            == st.created_referrer_dirs@,
{
    let mut s = req.skill.duplicate();
    s.source_path = Some(req.master_md.clone());
    s.canonical_path = Some(req.master_md.clone());
    let a = SkillAdd::installed(s, st.wrote_master, copy_strings(&st.created_referrer_dirs));
    done(st, AddAction::Finish { result: Ok(a), record: true })
}

/// The transition table of an add (see [`add_skill_step`]).
pub open spec fn add_step_spec(req: AddRequest, st: AddState, event: AddEvent, next: AddState, action: AddAction) -> bool {
    match (st.stage, event) {
        (AddStage::Lock, AddEvent::Locked(Err(e))) => next.stage == AddStage::Done && action == AddAction::Fail {
            undo: AddUndo::Nothing,
            error: e,
        },
        (AddStage::Lock, AddEvent::Locked(Ok(()))) => next.stage == AddStage::Present && action is Continue,
        (AddStage::Present, AddEvent::Present { existing: Some(ex), slot_links_master }) => {
            &&& next.stage == AddStage::Done
            &&& if req.from_path && req.as_name_given {
                action matches AddAction::Fail { undo: AddUndo::Nothing, error: e } && is_exists(
                    e,
                    "skill"@,
                    req.skill.name@,
                )
            } else if slot_links_master {
                action matches AddAction::Finish { result: Ok(a), record: false } && same_skill(a.skill, ex)
                    && a.already_installed && !a.wrote_master
            } else {
                action matches AddAction::Finish { result: Err(e), record: false } && is_exists(
                    e,
                    "skill"@,
                    ex.name@,
                )
            }
        },
        (AddStage::Present, AddEvent::Present { existing: None, .. }) => if req.from_path {
            next.stage == AddStage::Materialize && action is Materialize && !next.wrote_master
        } else {
            next.stage == AddStage::Master && action is Continue
        },
        (AddStage::Master, AddEvent::MasterChecked { exists }) => if exists {
            next.stage == AddStage::Materialize && action is Materialize && !next.wrote_master
        } else {
            next.stage == AddStage::MasterWrite && action is WriteMaster
        },
        (AddStage::MasterWrite, AddEvent::MasterWritten(Err(e))) => next.stage == AddStage::Done && action
            == AddAction::Fail { undo: AddUndo::Nothing, error: e },
        (AddStage::MasterWrite, AddEvent::MasterWritten(Ok(()))) => next.stage == AddStage::Materialize
            && action is Materialize && next.wrote_master,
        (AddStage::Materialize, AddEvent::Materialized(Err(e))) => next.stage == AddStage::Done && action
            == AddAction::Fail { undo: AddUndo::Nothing, error: e },
        (AddStage::Materialize, AddEvent::Materialized(Ok((rows, created, dirs)))) => {
            let wrote = if req.from_path {
                created
            } else {
                st.wrote_master
            };
            let linked = match req.link_need {
                LinkNeed::Unsupported => true,
                LinkNeed::NeedsLink { .. } => rows@.len() > 0 && rows@[0].error is None,
            };
            &&& next.created_referrer_dirs@ == dirs@
            &&& next.wrote_master == wrote
            &&& if !linked {
                next.stage == AddStage::Done && (action matches AddAction::Fail { undo: AddUndo::Nothing, error: e }
                    && is_exists(e, "skill"@, req.skill.name@))
            } else if req.from_path && req.skill.name@ != req.source_name@ {
                if !created {
                    next.stage == AddStage::Done && (action matches AddAction::Fail {
                        undo: AddUndo::Referrers { dirs: d },
                        error: e,
                    } && d@ == dirs@ && is_exists(e, "skill"@, req.skill.name@))
                } else {
                    next.stage == AddStage::Rename && action is RewriteName
                }
            } else if wrote {
                next.stage == AddStage::Done && (action matches AddAction::Finish { result: Ok(a), record: true }
                    && installed_as(a.skill, req.skill, req.master_md@) && a.wrote_master && a.created_referrer_dirs@
                    == dirs@)
            } else {
                next.stage == AddStage::ReadBack && action is ReadMaster
            }
        },
        (AddStage::Rename, AddEvent::Renamed(Err(m))) => next.stage == AddStage::Done && (action matches AddAction::Fail {
            undo: AddUndo::ReferrersAndMaster { dirs: d },
            error: ConfigError::Io(x),
        } && d@ == st.created_referrer_dirs@ && x == m),
        (AddStage::Rename, AddEvent::Renamed(Ok(()))) => next.stage == AddStage::Done && (action matches AddAction::Finish {
            result: Ok(a),
            record: true,
        } && installed_as(a.skill, req.skill, req.master_md@) && a.wrote_master == st.wrote_master
            && a.created_referrer_dirs@ == st.created_referrer_dirs@),
        (AddStage::ReadBack, AddEvent::ReadBack(None)) => next.stage == AddStage::Done && (action matches AddAction::Fail {
            undo: AddUndo::Materialized { dirs: d },
            error: ConfigError::InvalidConfig(m),
        } && d@ == st.created_referrer_dirs@ && m@ == unparsable_master_message(req.master_md@)),
        (AddStage::ReadBack, AddEvent::ReadBack(Some(found))) => next.stage == AddStage::Done && (action matches AddAction::Finish {
            result: Ok(a),
            record: true,
        } && a.skill == found && !a.already_installed && a.wrote_master == st.wrote_master
            && a.created_referrer_dirs@ == st.created_referrer_dirs@),
        _ => next.stage == AddStage::Done && (action matches AddAction::Fail { undo: AddUndo::Nothing, error: ConfigError::InvalidConfig(_) }),
    }
}

/// One step of adding a skill. In order: take the lock (re-reading the
/// config); a skill of that name already in the config is re-added as a
/// no-op when this agent's slot already links to its Master and refused as
/// taken otherwise (always refused for a path install under a chosen name);
/// a hand-written skill's Master is written unless it exists; the Master is
/// materialized and this agent linked, which must have succeeded for an
/// agent that needs a link; a path install under another name rewrites the
/// fresh Master's name (a Master it did not write refuses the name as
/// taken); then the skill is recorded: as requested when this call wrote
/// the Master, else as the existing Master reads back.
pub fn add_skill_step(req: &AddRequest, st: AddState, event: AddEvent) -> (r: (AddState, AddAction))
    ensures
        add_step_spec(*req, st, event, r.0, r.1),
{
    match (st.stage, event) {
        (AddStage::Lock, AddEvent::Locked(Err(e))) => done(&st, AddAction::Fail { undo: AddUndo::Nothing, error: e }),
        (AddStage::Lock, AddEvent::Locked(Ok(()))) => at(AddStage::Present, &st, AddAction::Continue),
        (AddStage::Present, AddEvent::Present { existing: Some(ex), slot_links_master }) => {
            if req.from_path && req.as_name_given {
                done(&st, AddAction::Fail { undo: AddUndo::Nothing, error: exists_error("skill", req.skill.name.as_str()) })
            } else {
                let result = ConfigManager::readd_outcome(&ex, slot_links_master);
                done(&st, AddAction::Finish { result, record: false })
            }
        },
        (AddStage::Present, AddEvent::Present { existing: None, .. }) => {
            if req.from_path {
                (
                    AddState { stage: AddStage::Materialize, wrote_master: false, created_referrer_dirs: Vec::new() },
                    AddAction::Materialize,
                )
            } else {
                at(AddStage::Master, &st, AddAction::Continue)
            }
        },
        (AddStage::Master, AddEvent::MasterChecked { exists }) => {
            if exists {
                (
                    AddState { stage: AddStage::Materialize, wrote_master: false, created_referrer_dirs: Vec::new() },
                    AddAction::Materialize,
                )
            } else {
                at(AddStage::MasterWrite, &st, AddAction::WriteMaster)
            }
        },
        (AddStage::MasterWrite, AddEvent::MasterWritten(Err(e))) => done(
            &st,
            AddAction::Fail { undo: AddUndo::Nothing, error: e },
        ),
        (AddStage::MasterWrite, AddEvent::MasterWritten(Ok(()))) => (
            AddState { stage: AddStage::Materialize, wrote_master: true, created_referrer_dirs: Vec::new() },
            AddAction::Materialize,
        ),
        (AddStage::Materialize, AddEvent::Materialized(Err(e))) => done(
            &st,
            AddAction::Fail { undo: AddUndo::Nothing, error: e },
        ),
        (AddStage::Materialize, AddEvent::Materialized(Ok((rows, created, dirs)))) => {
            let wrote = if req.from_path {
                created
            } else {
                st.wrote_master
            };
            let next = AddState { stage: AddStage::Done, wrote_master: wrote, created_referrer_dirs: dirs };
            match ConfigManager::ensure_single_agent_installed(&rows, &req.link_need, req.skill.name.as_str()) {
                Err(e) => {
                    return (next, AddAction::Fail { undo: AddUndo::Nothing, error: e });
                },
                Ok(()) => {},
            }
            if req.from_path && !str_eq(req.skill.name.as_str(), req.source_name.as_str()) {
                if !created {
                    let undo = AddUndo::Referrers { dirs: copy_strings(&next.created_referrer_dirs) };
                    let error = exists_error("skill", req.skill.name.as_str());
                    return (next, AddAction::Fail { undo, error });
                }
                return at(AddStage::Rename, &next, AddAction::RewriteName);
            }
            if wrote {
                record_fresh(req, &next)
            } else {
                at(AddStage::ReadBack, &next, AddAction::ReadMaster)
            }
        },
        (AddStage::Rename, AddEvent::Renamed(Err(m))) => {
            let undo = AddUndo::ReferrersAndMaster { dirs: copy_strings(&st.created_referrer_dirs) };
            done(&st, AddAction::Fail { undo, error: ConfigError::Io(m) })
        },
        (AddStage::Rename, AddEvent::Renamed(Ok(()))) => record_fresh(req, &st),
        (AddStage::ReadBack, AddEvent::ReadBack(None)) => {
            let undo = AddUndo::Materialized { dirs: copy_strings(&st.created_referrer_dirs) };
            let error = ConfigError::InvalidConfig(
                quoted_message(
                    "the existing master at '",
                    req.master_md.as_str(),
                    "' does not parse, so nothing can read it and aghub cannot report what is installed. Fix or remove that master, then re-run.",
                ),
            );
            done(&st, AddAction::Fail { undo, error })
        },
        (AddStage::ReadBack, AddEvent::ReadBack(Some(found))) => {
            let a = SkillAdd::installed(found, st.wrote_master, copy_strings(&st.created_referrer_dirs));
            done(&st, AddAction::Finish { result: Ok(a), record: true })
        },
        _ => done(
            &st,
            AddAction::Fail {
                undo: AddUndo::Nothing,
                error: ConfigError::InvalidConfig(crate::text::owned("add skill: event out of order")),
            },
        ),
    }
}

/// Every refusal before the Master stage writes nothing: a failure from
/// the lock, the presence check or the Master write leaves nothing to undo.
pub proof fn lemma_refusals_before_master_undo_nothing(
    req: AddRequest,
    st: AddState,
    event: AddEvent,
    next: AddState,
    action: AddAction,
)
    requires
        st.stage == AddStage::Lock || st.stage == AddStage::Present || st.stage == AddStage::Master || st.stage
            == AddStage::MasterWrite || st.stage == AddStage::Materialize,
        add_step_spec(req, st, event, next, action),
        action is Fail,
    ensures
        action->undo == AddUndo::Nothing || (st.stage == AddStage::Materialize && (action->undo is Referrers)),
{
}

/// Adding a skill twice is a no-op the second time: once an add has
/// recorded its skill, a second add of it (not a path install under a
/// chosen name), finding that skill in the config and this agent's slot
/// linking the Master, finishes at once, reports the recorded skill as
/// already installed, writes no Master and records nothing.
pub proof fn lemma_second_add_is_noop(
    first_req: AddRequest,
    first_st: AddState,
    first_event: AddEvent,
    first_next: AddState,
    first_action: AddAction,
    req: AddRequest,
    st: AddState,
    next: AddState,
    action: AddAction,
)
    requires
        add_step_spec(first_req, first_st, first_event, first_next, first_action),
        first_action matches AddAction::Finish { result: Ok(_), record: true },
        st.stage == AddStage::Present,
        !(req.from_path && req.as_name_given),
        add_step_spec(
            req,
            st,
            AddEvent::Present { existing: Some(first_action->result->Ok_0.skill), slot_links_master: true },
            next,
            action,
        ),
    ensures
        next.stage == AddStage::Done,
        action matches AddAction::Finish { result: Ok(b), record: false } && b.already_installed && !b.wrote_master
            && same_skill(b.skill, first_action->result->Ok_0.skill),
{
}

} // verus!
