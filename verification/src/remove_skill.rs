//! Removing one skill from one agent: unlinking its Referrer, or deleting
//! its private copy, and dropping the entry. A folder that other agents
//! still read (a shared Master, or one another agent's link points into) is
//! refused: only the layout-aware planned removal may take it.
//!
//! [`remove_skill_step`] takes the stage and what the caller observed or got
//! back, and says what to do next.

use vstd::prelude::*;

use crate::manager::{
    is_no_config, is_not_found, is_unsupported, no_config, not_found, removal_file_spec, skill_removal_file,
    unsupported, ConfigError,
};
use crate::models::Skill;
use crate::text::owned;
use crate::update_skill::ov;

verus! {

/// How far a removal has come.
#[derive(Debug, Clone, Copy, PartialEq, Eq, Structural)]
pub enum RemoveStage {
    /// Taking the mutation lock and re-reading the config under it.
    Lock,
    /// Finding the skill in the re-read config.
    Locate,
    /// Looking at the skill's file on disk.
    Inspect,
    /// Deleting the skill's path.
    Remove,
    Done,
}

/// What a removal has learned so far.
#[derive(Debug)]
pub struct RemoveState {
    pub stage: RemoveStage,
    /// The skill's position in the re-read config.
    pub index: usize,
    /// The skill file the removal starts from.
    pub path: String,
    /// The entry is a link to a Master (it records a canonical path).
    pub is_link: bool,
}

/// What the caller observed, or got back, for the current stage.
#[derive(Debug)]
pub enum RemoveEvent {
    /// The lock was taken and the config re-read, or why not.
    Locked(Result<(), ConfigError>),
    /// Whether a config is loaded; the skill's position and entry in it;
    /// the agent's skills dir and the home dir.
    Located { loaded: bool, existing: Option<(usize, Skill)>, target_dir: Option<String>, home: Option<String> },
    /// Whether the skill file exists, and whether its folder must be kept
    /// for other agents (the single-agent keep rule).
    Inspected { exists: bool, keep: bool },
    /// Deleting the skill's path.
    Removed(Result<(), ConfigError>),
}

/// What the caller does next.
#[derive(Debug)]
pub enum RemoveAction {
    /// Go on to the new stage and report what it asks for.
    Continue,
    /// Look at `path`, and (for a copy) at whether its folder must be kept.
    Inspect { path: String },
    /// Delete the skill at `path`: its link, or its folder for a copy.
    RemovePath { path: String, is_link: bool },
    /// Report this error.
    Fail(ConfigError),
    /// Done: drop the config entry at `index`, when there is one.
    Finish { index: Option<usize> },
}

pub open spec fn keep_refusal_reason() -> Seq<char> {
    "shared universal master (or a folder another agent's link still points at) — use remove_skill_planned"@
}

/// The transition table of a single-agent removal (see
/// [`remove_skill_step`]). `was_in_view` is whether the caller's config held
/// the skill before the lock was taken.
pub open spec fn remove_step_spec(
    name: Seq<char>,
    agent: Seq<char>,
    was_in_view: bool,
    st: RemoveState,
    event: RemoveEvent,
    next: RemoveState,
    action: RemoveAction,
) -> bool {
    let done = next.stage == RemoveStage::Done;
    match (st.stage, event) {
        (RemoveStage::Lock, RemoveEvent::Locked(Err(e))) => done && action == RemoveAction::Fail(e),
        (RemoveStage::Lock, RemoveEvent::Locked(Ok(()))) => next.stage == RemoveStage::Locate && action is Continue,
        (RemoveStage::Locate, RemoveEvent::Located { loaded, existing, target_dir, home }) => if !loaded {
            done && (action matches RemoveAction::Fail(e) && is_no_config(e))
        } else {
            match existing {
                None => done && if was_in_view {
                    action == RemoveAction::Finish { index: None }
                } else {
                    action matches RemoveAction::Fail(e) && is_not_found(e, "skill"@, name)
                },
                Some((i, ex)) => match removal_file_spec(ex, name, ov(target_dir), ov(home)) {
                    None => done && action == RemoveAction::Finish { index: Some(i) },
                    Some(p) => next.stage == RemoveStage::Inspect && next.index == i && next.path@ == p
                        && next.is_link == ex.canonical_path is Some && (action matches RemoveAction::Inspect { path }
                        && path@ == p),
                },
            }
        },
        (RemoveStage::Inspect, RemoveEvent::Inspected { exists, keep }) => if !exists {
            done && action == RemoveAction::Finish { index: Some(st.index) }
        } else if !st.is_link && keep {
            done && (action matches RemoveAction::Fail(e) && is_unsupported(
                e,
                "remove for this agent alone"@,
                keep_refusal_reason(),
                agent,
            ))
        } else {
            next.stage == RemoveStage::Remove && next.index == st.index && (action matches RemoveAction::RemovePath {
                path,
                is_link,
            } && path == st.path && is_link == st.is_link)
        },
        (RemoveStage::Remove, RemoveEvent::Removed(Err(e))) => done && action == RemoveAction::Fail(e),
        (RemoveStage::Remove, RemoveEvent::Removed(Ok(()))) => done && action == RemoveAction::Finish {
            index: Some(st.index),
        },
        _ => done && (action matches RemoveAction::Fail(ConfigError::InvalidConfig(_))),
    }
}

fn at(stage: RemoveStage, st: &RemoveState) -> (r: RemoveState)
    ensures
        r.stage == stage,
        r.index == st.index,
        r.path == st.path,
        r.is_link == st.is_link,
{
    RemoveState { stage, index: st.index, path: st.path.clone(), is_link: st.is_link }
}

/// One step of removing the skill `name` from the agent `agent`. In order:
/// take the lock (re-reading the config); find the skill (nothing loaded
/// refuses; a skill gone since the caller looked is already removed, one
/// never there is not found); find its file (none: only the entry goes);
/// look at it (gone: only the entry goes; a copy whose folder other agents
/// still read is refused); delete it; drop the entry.
pub fn remove_skill_step(name: &str, agent: &str, was_in_view: bool, st: RemoveState, event: RemoveEvent) -> (r: (
    RemoveState,
    RemoveAction,
))
    ensures
        remove_step_spec(name@, agent@, was_in_view, st, event, r.0, r.1),
{
    match (st.stage, event) {
        (RemoveStage::Lock, RemoveEvent::Locked(Err(e))) => (at(RemoveStage::Done, &st), RemoveAction::Fail(e)),
        (RemoveStage::Lock, RemoveEvent::Locked(Ok(()))) => (at(RemoveStage::Locate, &st), RemoveAction::Continue),
        (RemoveStage::Locate, RemoveEvent::Located { loaded, existing, target_dir, home }) => {
            if !loaded {
                return (at(RemoveStage::Done, &st), RemoveAction::Fail(no_config()));
            }
            match existing {
                None => {
                    let action = if was_in_view {
                        RemoveAction::Finish { index: None }
                    } else {
                        RemoveAction::Fail(not_found("skill", name))
                    };
                    (at(RemoveStage::Done, &st), action)
                },
                Some((i, ex)) => {
                    let td = match &target_dir {
                        Some(t) => Some(t.as_str()),
                        None => None,
                    };
                    let hm = match &home {
                        Some(h) => Some(h.as_str()),
                        None => None,
                    };
                    match skill_removal_file(&ex, name, td, hm) {
                        None => (at(RemoveStage::Done, &st), RemoveAction::Finish { index: Some(i) }),
                        Some(p) => {
                            let next = RemoveState {
                                stage: RemoveStage::Inspect,
                                index: i,
                                path: p.clone(),
                                is_link: ex.canonical_path.is_some(),
                            };
                            (next, RemoveAction::Inspect { path: p })
                        },
                    }
                },
            }
        },
        (RemoveStage::Inspect, RemoveEvent::Inspected { exists, keep }) => {
            if !exists {
                (at(RemoveStage::Done, &st), RemoveAction::Finish { index: Some(st.index) })
            } else if !st.is_link && keep {
                (
                    at(RemoveStage::Done, &st),
                    RemoveAction::Fail(
                        unsupported(
                            "remove for this agent alone",
                            "shared universal master (or a folder another agent's link still points at) — use remove_skill_planned",
                            agent,
                        ),
                    ),
                )
            } else {
                let action = RemoveAction::RemovePath { path: st.path.clone(), is_link: st.is_link };
                (at(RemoveStage::Remove, &st), action)
            }
        },
        (RemoveStage::Remove, RemoveEvent::Removed(Err(e))) => (at(RemoveStage::Done, &st), RemoveAction::Fail(e)),
        (RemoveStage::Remove, RemoveEvent::Removed(Ok(()))) => (
            at(RemoveStage::Done, &st),
            RemoveAction::Finish { index: Some(st.index) },
        ),
        _ => (
            at(RemoveStage::Done, &st),
            RemoveAction::Fail(ConfigError::InvalidConfig(owned("remove skill: event out of order"))),
        ),
    }
}

/// A copy whose folder other agents still read is never deleted: when the
/// inspection finds such a folder, the step refuses, and deleting a path is
/// only ever asked for after an inspection that found no such folder (or
/// for a link).
pub proof fn lemma_kept_folder_never_deleted(
    name: Seq<char>,
    agent: Seq<char>,
    was_in_view: bool,
    st: RemoveState,
    event: RemoveEvent,
    next: RemoveState,
    action: RemoveAction,
)
    requires
        remove_step_spec(name, agent, was_in_view, st, event, next, action),
    ensures
        action matches RemoveAction::RemovePath { is_link, .. } ==> st.stage == RemoveStage::Inspect && (
        event matches RemoveEvent::Inspected { exists, keep } && exists && (is_link || !keep)),
        (st.stage == RemoveStage::Inspect && !st.is_link && (event matches RemoveEvent::Inspected { exists, keep }
            && exists && keep)) ==> action is Fail && next.stage == RemoveStage::Done,
{
}

} // verus!
