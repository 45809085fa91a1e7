//! Updating one agent's skill, renaming it when the name changes: the
//! skill's folder (the Master, whose Referrers are repointed) or its loose
//! `<name>.md` file, then its `SKILL.md` rewritten.
//!
//! [`update_skill_step`] takes the stage and what the caller observed or got
//! back, and says what to do next. A rename onto a taken name is refused
//! before anything moves; a Master whose Referrers could not be repointed is
//! renamed back.

use vstd::prelude::*;

use crate::lock::quoted_message;
use crate::manager::{
    exists_error, is_exists, is_no_config, is_not_found, no_config, not_found, rename_spec, skill_file_rename,
    skill_update_file, update_file_spec, updated_skill_record, ConfigError, SkillFileRename,
};
use crate::models::{same_skill, Skill};
use crate::paths::{file_name, file_name_spec, join, join_spec, parent, parent_spec};
use crate::sanitize::{sanitize_name, sanitized};
use crate::text::owned;

verus! {

/// How far an update has come.
#[derive(Debug, Clone, Copy, PartialEq, Eq, Structural)]
pub enum UpdateStage {
    /// Taking the mutation lock.
    Lock,
    /// Finding the skill in the loaded config.
    Locate,
    /// Reading the existing skill file's body.
    Parse,
    /// Before renaming the Master: resolving it (a linked Master) and
    /// checking the new name is free.
    Target,
    /// Renaming the Master's folder.
    MasterRename,
    /// Repointing the Master's Referrers.
    Relink,
    /// Renaming the Master back after a failed relink.
    Rollback,
    /// Renaming a loose skill file.
    FileRename,
    /// Writing the skill file.
    Write,
    Done,
}

/// What an update has learned so far.
#[derive(Debug)]
pub struct UpdateState {
    pub stage: UpdateStage,
    /// The skill's position in the config.
    pub index: usize,
    /// The skill as the config held it.
    pub existing: Skill,
    /// The skill file before the update.
    pub path: String,
    /// The skill file after any rename.
    pub final_path: String,
    /// The existing file's body, kept unless the update brings one.
    pub body: Option<String>,
    /// The Master was renamed and its Referrers repointed.
    pub relinked: bool,
    /// Why the relink failed, while rolling it back.
    pub relink_error: String,
}

/// What the caller observed, or got back, for the current stage.
#[derive(Debug)]
pub enum UpdateEvent {
    /// The mutation lock was taken, or why not.
    Locked(Result<(), String>),
    /// Whether a config is loaded, the skill's position and entry in it,
    /// and the agent's skills dir and the home dir.
    Located { loaded: bool, existing: Option<(usize, Skill)>, target_dir: Option<String>, home: Option<String> },
    /// The existing file's body (`None` when there is no such file), or
    /// why it could not be parsed.
    Parsed(Result<Option<String>, String>),
    /// For a linked Master, resolving it (else `Ok`); and whether the new
    /// folder name is taken.
    TargetChecked { resolved: Result<(), String>, taken: bool },
    /// Renaming the Master's folder.
    MasterRenamed(Result<(), String>),
    /// Repointing the Referrers at the renamed Master.
    Relinked(Result<(), String>),
    /// Renaming the Master back; on failure, the rollback's error and the
    /// recovery step to print.
    RolledBack(Result<(), (String, String)>),
    /// Renaming the loose file.
    FileRenamed(Result<(), String>),
    /// Writing the skill file.
    Written(Result<(), String>),
}

/// What the caller does next.
#[derive(Debug)]
pub enum UpdateAction {
    /// Go on to the new stage and report what it asks for.
    Continue,
    /// Read the existing skill file's body.
    ReadExisting { path: String },
    /// Resolve the Master (when it is linked) and check `to` is free.
    CheckTarget { from: String, to: String },
    /// Rename the Master folder `from` to `to`.
    RenameMaster { from: String, to: String },
    /// Repoint the Referrers of `from` at the renamed Master `to`.
    Relink { from: String, to: String },
    /// Rename the Master back from `from` to `to`.
    RenameBack { from: String, to: String },
    /// Rename the loose file `from` to `to`.
    RenameFile { from: String, to: String },
    /// Write the skill file at `path`, keeping `body` unless the skill
    /// brings its own.
    Write { path: String, body: Option<String> },
    /// Report this error.
    Fail(ConfigError),
    /// Done: the config entry at `index` becomes `skill`.
    Finish { index: usize, skill: Skill },
}

/// The view of an optional string.
pub open spec fn ov(o: Option<String>) -> Option<Seq<char>> {
    match o {
        Some(s) => Some(s@),
        None => None,
    }
}

/// The Master folder of `path`, and where it goes for `new_name`.
pub open spec fn master_dirs(path: Seq<char>, new_name: Seq<char>) -> (Seq<char>, Seq<char>) {
    let from = match parent_spec(path) {
        Some(p) => p,
        None => Seq::empty(),
    };
    let up = match parent_spec(from) {
        Some(p) => p,
        None => Seq::empty(),
    };
    (from, join_spec(up, sanitized(new_name)))
}

pub open spec fn leaf(path: Seq<char>) -> Seq<char> {
    match file_name_spec(path) {
        Some(n) => n,
        None => Seq::empty(),
    }
}

pub open spec fn io_error(e: ConfigError, m: Seq<char>) -> bool {
    e matches ConfigError::Io(x) && x@ == m
}

/// The transition table of an update (see [`update_skill_step`]).
pub open spec fn update_step_spec(
    name: Seq<char>,
    skill: Skill,
    st: UpdateState,
    event: UpdateEvent,
    next: UpdateState,
    action: UpdateAction,
) -> bool {
    let done = next.stage == UpdateStage::Done;
    match (st.stage, event) {
        (UpdateStage::Lock, UpdateEvent::Locked(Err(m))) => done && (action matches UpdateAction::Fail(e) && io_error(e, m@)),
        (UpdateStage::Lock, UpdateEvent::Locked(Ok(()))) => next.stage == UpdateStage::Locate && action is Continue,
        (UpdateStage::Locate, UpdateEvent::Located { loaded, existing, target_dir, home }) => if !loaded {
            done && (action matches UpdateAction::Fail(e) && is_no_config(e))
        } else {
            match existing {
                None => done && (action matches UpdateAction::Fail(e) && is_not_found(e, "skill"@, name)),
                Some((i, ex)) => match update_file_spec(ex, name, ov(target_dir), ov(home)) {
                    None => done && (action matches UpdateAction::Fail(ConfigError::InvalidConfig(m)) && m@
                        == "Agent does not support persistent skill updates or source missing"@),
                    Some(p) => next.stage == UpdateStage::Parse && next.index == i && same_skill(next.existing, ex)
                        && next.path@ == p && next.final_path@ == p && !next.relinked && (
                    action matches UpdateAction::ReadExisting { path } && path@ == p),
                },
            }
        },
        (UpdateStage::Parse, UpdateEvent::Parsed(Err(m))) => done && (action matches UpdateAction::Fail(
            ConfigError::InvalidConfig(x),
        ) && x@ == "Failed to parse existing skill '"@ + st.path@ + "': "@ + m@),
        (UpdateStage::Parse, UpdateEvent::Parsed(Ok(body))) => {
            &&& next.body == body
            &&& next.index == st.index && next.path == st.path
            &&& if name == skill.name@ {
                next.stage == UpdateStage::Write && (action matches UpdateAction::Write { path, body: b }
                    && path@ == st.path@ && b == body)
            } else {
                match parent_spec(st.path@) {
                    Some(p) if file_name_spec(p) == Some(sanitized(name)) => {
                        let (from, to) = master_dirs(st.path@, skill.name@);
                        next.stage == UpdateStage::Target && (action matches UpdateAction::CheckTarget { from: f, to: t }
                            && f@ == from && t@ == to)
                    },
                    _ => match rename_spec(st.path@, name, skill.name@) {
                        Some(to) => next.stage == UpdateStage::FileRename && (action matches UpdateAction::RenameFile {
                            from: f,
                            to: t,
                        } && f@ == st.path@ && t@ == to) && next.final_path@ == to,
                        None => next.stage == UpdateStage::Write && (action matches UpdateAction::Write {
                            path,
                            body: b,
                        } && path@ == st.path@ && b == body),
                    },
                }
            }
        },
        (UpdateStage::Target, UpdateEvent::TargetChecked { resolved, taken }) => {
            let (from, to) = master_dirs(st.path@, skill.name@);
            if st.existing.canonical_path is Some && resolved is Err {
                done && (action matches UpdateAction::Fail(e) && io_error(
                    e,
                    "Failed to resolve skill master '"@ + from + "': "@ + resolved->Err_0@,
                ))
            } else if taken {
                done && (action matches UpdateAction::Fail(e) && is_exists(e, "skill"@, sanitized(skill.name@)))
            } else {
                next.stage == UpdateStage::MasterRename && (action matches UpdateAction::RenameMaster { from: f, to: t }
                    && f@ == from && t@ == to)
            }
        },
        (UpdateStage::MasterRename, UpdateEvent::MasterRenamed(Err(m))) => {
            let (from, to) = master_dirs(st.path@, skill.name@);
            done && (action matches UpdateAction::Fail(e) && io_error(
                e,
                "Failed to rename skill directory '"@ + from + "' -> '"@ + to + "': "@ + m@,
            ))
        },
        (UpdateStage::MasterRename, UpdateEvent::MasterRenamed(Ok(()))) => {
            let (from, to) = master_dirs(st.path@, skill.name@);
            &&& next.final_path@ == join_spec(to, leaf(st.path@))
            &&& if st.existing.canonical_path is Some {
                next.stage == UpdateStage::Relink && (action matches UpdateAction::Relink { from: f, to: t } && f@
                    == from && t@ == to)
            } else {
                next.stage == UpdateStage::Write && (action matches UpdateAction::Write { path, body: b } && path@
                    == join_spec(to, leaf(st.path@)) && b == st.body)
            }
        },
        (UpdateStage::Relink, UpdateEvent::Relinked(Ok(()))) => next.stage == UpdateStage::Write && next.relinked && (
        action matches UpdateAction::Write { path, body: b } && path == st.final_path && b == st.body),
        (UpdateStage::Relink, UpdateEvent::Relinked(Err(m))) => {
            let (from, to) = master_dirs(st.path@, skill.name@);
            next.stage == UpdateStage::Rollback && next.relink_error == m && (action matches UpdateAction::RenameBack {
                from: f,
                to: t,
            } && f@ == to && t@ == from)
        },
        (UpdateStage::Rollback, UpdateEvent::RolledBack(Ok(()))) => done && (action matches UpdateAction::Fail(e)
            && io_error(e, st.relink_error@)),
        (UpdateStage::Rollback, UpdateEvent::RolledBack(Err((rb, hint)))) => done && (action matches UpdateAction::Fail(e)
            && io_error(
            e,
            "skill relink failed ("@ + st.relink_error@ + ") and rollback also failed ("@ + rb@ + "); "@ + hint@,
        )),
        (UpdateStage::FileRename, UpdateEvent::FileRenamed(Err(m))) => done && (action matches UpdateAction::Fail(e)
            && io_error(e, "Failed to rename skill file '"@ + st.path@ + "' -> '"@ + st.final_path@ + "': "@ + m@)),
        (UpdateStage::FileRename, UpdateEvent::FileRenamed(Ok(()))) => next.stage == UpdateStage::Write && (
        action matches UpdateAction::Write { path, body: b } && path == st.final_path && b == st.body),
        (UpdateStage::Write, UpdateEvent::Written(Err(m))) => done && (action matches UpdateAction::Fail(e) && io_error(
            e,
            m@,
        )),
        (UpdateStage::Write, UpdateEvent::Written(Ok(()))) => done && (action matches UpdateAction::Finish {
            index,
            skill: s,
        } && index == st.index && s.name == skill.name && s.description == skill.description && s.enabled
            == skill.enabled && s.content == skill.content && (if st.final_path@ == st.path@ {
            s.source_path == st.existing.source_path && s.canonical_path == st.existing.canonical_path
        } else if st.relinked {
            (s.source_path matches Some(p) && p@ == st.final_path@) && (s.canonical_path matches Some(p) && p@
                == st.final_path@)
        } else {
            (s.source_path matches Some(p) && p@ == st.final_path@) && s.canonical_path is None
        })),
        _ => done && (action matches UpdateAction::Fail(ConfigError::InvalidConfig(_))),
    }
}

fn with(st: &UpdateState, stage: UpdateStage) -> (r: UpdateState)
    ensures
        r.stage == stage,
        r.index == st.index,
        same_skill(r.existing, st.existing),
        r.path == st.path,
        r.final_path == st.final_path,
        r.body == st.body,
        r.relinked == st.relinked,
        r.relink_error == st.relink_error,
{
    UpdateState {
        stage,
        index: st.index,
        existing: st.existing.duplicate(),
        path: st.path.clone(),
        final_path: st.final_path.clone(),
        body: crate::models::clone_opt(&st.body),
        relinked: st.relinked,
        relink_error: st.relink_error.clone(),
    }
}

fn master_dirs_of(path: &str, new_name: &str) -> (r: (String, String))
    ensures
        (r.0@, r.1@) == master_dirs(path@, new_name@),
{
    let from = match parent(path) {
        Some(p) => p,
        None => owned(""),
    };
    let up = match parent(from.as_str()) {
        Some(p) => p,
        None => owned(""),
    };
    proof {
        reveal_strlit("");
    }
    let safe = sanitize_name(new_name);
    let to = join(up.as_str(), safe.as_str());
    (from, to)
}

fn leaf_of(path: &str) -> (r: String)
    ensures
        r@ == leaf(path@),
{
    match file_name(path) {
        Some(n) => n,
        None => {
            proof {
                reveal_strlit("");
            }
            owned("")
        },
    }
}

fn fail(st: &UpdateState, e: ConfigError) -> (r: (UpdateState, UpdateAction))
    ensures
        r.0.stage == UpdateStage::Done,
        r.1 == UpdateAction::Fail(e),
{
    (with(st, UpdateStage::Done), UpdateAction::Fail(e))
}

/// One step of updating the skill `name` to `skill`. In order: take the
/// lock; find the skill (nothing loaded, or no such skill, refuses) and its
/// file (an agent with none refuses); read the file's body (a parse error
/// refuses); when the name changes, rename the skill's folder (refusing a
/// taken name, and for a linked Master one that cannot be resolved, before
/// anything moves; repointing its Referrers, and renaming it back when that
/// fails) or its loose `<old>.md` file; write the file; and record the
/// skill with the paths it now has.
pub fn update_skill_step(name: &str, skill: &Skill, st: UpdateState, event: UpdateEvent) -> (r: (
    UpdateState,
    UpdateAction,
))
    ensures
        update_step_spec(name@, *skill, st, event, r.0, r.1),
{
    match (st.stage, event) {
        (UpdateStage::Lock, UpdateEvent::Locked(Err(m))) => fail(&st, ConfigError::Io(m)),
        (UpdateStage::Lock, UpdateEvent::Locked(Ok(()))) => (with(&st, UpdateStage::Locate), UpdateAction::Continue),
        (UpdateStage::Locate, UpdateEvent::Located { loaded, existing, target_dir, home }) => {
            if !loaded {
                return fail(&st, no_config());
            }
            match existing {
                None => fail(&st, not_found("skill", name)),
                Some((i, ex)) => {
                    let td = match &target_dir {
                        Some(t) => Some(t.as_str()),
                        None => None,
                    };
                    let hm = match &home {
                        Some(h) => Some(h.as_str()),
                        None => None,
                    };
                    match skill_update_file(&ex, name, td, hm) {
                        None => {
                            proof {
                                reveal_strlit("Agent does not support persistent skill updates or source missing");
                            }
                            fail(
                                &st,
                                ConfigError::InvalidConfig(
                                    owned("Agent does not support persistent skill updates or source missing"),
                                ),
                            )
                        },
                        Some(p) => {
                            let next = UpdateState {
                                stage: UpdateStage::Parse,
                                index: i,
                                existing: ex,
                                path: p.clone(),
                                final_path: p.clone(),
                                body: None,
                                relinked: false,
                                relink_error: owned(""),
                            };
                            (next, UpdateAction::ReadExisting { path: p })
                        },
                    }
                },
            }
        },
        (UpdateStage::Parse, UpdateEvent::Parsed(Err(m))) => {
            let e = quoted_message("Failed to parse existing skill '", st.path.as_str(), "': ");
            let msg = quoted_message(e.as_str(), m.as_str(), "");
            proof {
                reveal_strlit("");
                assert(msg@ =~= "Failed to parse existing skill '"@ + st.path@ + "': "@ + m@);
            }
            fail(&st, ConfigError::InvalidConfig(msg))
        },
        (UpdateStage::Parse, UpdateEvent::Parsed(Ok(body))) => {
            let mut next = with(&st, UpdateStage::Write);
            next.body = crate::models::clone_opt(&body);
            match skill_file_rename(st.path.as_str(), name, skill.name.as_str()) {
                SkillFileRename::Keep => (next, UpdateAction::Write { path: st.path.clone(), body }),
                SkillFileRename::Master => {
                    let (from, to) = master_dirs_of(st.path.as_str(), skill.name.as_str());
                    next.stage = UpdateStage::Target;
                    (next, UpdateAction::CheckTarget { from, to })
                },
                SkillFileRename::File { to } => {
                    next.stage = UpdateStage::FileRename;
                    next.final_path = to.clone();
                    (next, UpdateAction::RenameFile { from: st.path.clone(), to })
                },
            }
        },
        (UpdateStage::Target, UpdateEvent::TargetChecked { resolved, taken }) => {
            let (from, to) = master_dirs_of(st.path.as_str(), skill.name.as_str());
            if st.existing.canonical_path.is_some() {
                match resolved {
                    Err(e) => {
                        let a = quoted_message("Failed to resolve skill master '", from.as_str(), "': ");
                        let msg = quoted_message(a.as_str(), e.as_str(), "");
                        proof {
                            reveal_strlit("");
                            assert(msg@ =~= "Failed to resolve skill master '"@ + from@ + "': "@ + e@);
                        }
                        return fail(&st, ConfigError::Io(msg));
                    },
                    Ok(()) => {},
                }
            }
            if taken {
                let safe = sanitize_name(skill.name.as_str());
                return fail(&st, exists_error("skill", safe.as_str()));
            }
            (with(&st, UpdateStage::MasterRename), UpdateAction::RenameMaster { from, to })
        },
        (UpdateStage::MasterRename, UpdateEvent::MasterRenamed(Err(m))) => {
            let (from, to) = master_dirs_of(st.path.as_str(), skill.name.as_str());
            let a = quoted_message("Failed to rename skill directory '", from.as_str(), "' -> '");
            let b = quoted_message(a.as_str(), to.as_str(), "': ");
            let msg = quoted_message(b.as_str(), m.as_str(), "");
            proof {
                reveal_strlit("");
                assert(msg@ =~= "Failed to rename skill directory '"@ + from@ + "' -> '"@ + to@ + "': "@ + m@);
            }
            fail(&st, ConfigError::Io(msg))
        },
        (UpdateStage::MasterRename, UpdateEvent::MasterRenamed(Ok(()))) => {
            let (from, to) = master_dirs_of(st.path.as_str(), skill.name.as_str());
            let leaf = leaf_of(st.path.as_str());
            let final_path = join(to.as_str(), leaf.as_str());
            let mut next = with(&st, UpdateStage::Write);
            next.final_path = final_path.clone();
            if st.existing.canonical_path.is_some() {
                next.stage = UpdateStage::Relink;
                (next, UpdateAction::Relink { from, to })
            } else {
                let body = crate::models::clone_opt(&st.body);
                (next, UpdateAction::Write { path: final_path, body })
            }
        },
        (UpdateStage::Relink, UpdateEvent::Relinked(Ok(()))) => {
            let mut next = with(&st, UpdateStage::Write);
            next.relinked = true;
            let body = crate::models::clone_opt(&st.body);
            (next, UpdateAction::Write { path: st.final_path.clone(), body })
        },
        (UpdateStage::Relink, UpdateEvent::Relinked(Err(m))) => {
            let (from, to) = master_dirs_of(st.path.as_str(), skill.name.as_str());
            let mut next = with(&st, UpdateStage::Rollback);
            next.relink_error = m;
            (next, UpdateAction::RenameBack { from: to, to: from })
        },
        (UpdateStage::Rollback, UpdateEvent::RolledBack(Ok(()))) => {
            let e = st.relink_error.clone();
            fail(&st, ConfigError::Io(e))
        },
        (UpdateStage::Rollback, UpdateEvent::RolledBack(Err((rb, hint)))) => {
            let a = quoted_message("skill relink failed (", st.relink_error.as_str(), ") and rollback also failed (");
            let b = quoted_message(a.as_str(), rb.as_str(), "); ");
            let msg = quoted_message(b.as_str(), hint.as_str(), "");
            proof {
                reveal_strlit("");
                assert(msg@ =~= "skill relink failed ("@ + st.relink_error@ + ") and rollback also failed ("@ + rb@
                    + "); "@ + hint@);
            }
            fail(&st, ConfigError::Io(msg))
        },
        (UpdateStage::FileRename, UpdateEvent::FileRenamed(Err(m))) => {
            let a = quoted_message("Failed to rename skill file '", st.path.as_str(), "' -> '");
            let b = quoted_message(a.as_str(), st.final_path.as_str(), "': ");
            let msg = quoted_message(b.as_str(), m.as_str(), "");
            proof {
                reveal_strlit("");
                assert(msg@ =~= "Failed to rename skill file '"@ + st.path@ + "' -> '"@ + st.final_path@ + "': "@
                    + m@);
            }
            fail(&st, ConfigError::Io(msg))
        },
        (UpdateStage::FileRename, UpdateEvent::FileRenamed(Ok(()))) => {
            let next = with(&st, UpdateStage::Write);
            let body = crate::models::clone_opt(&st.body);
            (next, UpdateAction::Write { path: st.final_path.clone(), body })
        },
        (UpdateStage::Write, UpdateEvent::Written(Err(m))) => fail(&st, ConfigError::Io(m)),
        (UpdateStage::Write, UpdateEvent::Written(Ok(()))) => {
            let record = updated_skill_record(
                skill.duplicate(),
                &st.existing,
                st.final_path.as_str(),
                st.path.as_str(),
                st.relinked,
            );
            let index = st.index;
            (with(&st, UpdateStage::Done), UpdateAction::Finish { index, skill: record })
        },
        _ => {
            proof {
                reveal_strlit("update skill: event out of order");
            }
            fail(&st, ConfigError::InvalidConfig(owned("update skill: event out of order")))
        },
    }
}

/// A rename onto a taken name, or of a linked Master that cannot be
/// resolved, is refused before anything moves: it fails at the target
/// check, ahead of the only step that renames the Master.
pub proof fn lemma_taken_name_refused_before_rename(
    name: Seq<char>,
    skill: Skill,
    st: UpdateState,
    resolved: Result<(), String>,
    next: UpdateState,
    action: UpdateAction,
)
    requires
        st.stage == UpdateStage::Target,
        update_step_spec(name, skill, st, UpdateEvent::TargetChecked { resolved, taken: true }, next, action),
    ensures
        action is Fail,
        next.stage == UpdateStage::Done,
{
}

/// A relink that fails renames the Master back before the failure is
/// reported: its only next step is the rename back, and that step's only
/// outcome is the failure.
pub proof fn lemma_failed_relink_renames_back(
    name: Seq<char>,
    skill: Skill,
    st: UpdateState,
    event: UpdateEvent,
    next: UpdateState,
    action: UpdateAction,
)
    requires
        update_step_spec(name, skill, st, event, next, action),
    ensures
        st.stage == UpdateStage::Relink && event is Relinked && event->Relinked_0 is Err ==> action is RenameBack
            && next.stage == UpdateStage::Rollback,
        st.stage == UpdateStage::Rollback && event is RolledBack ==> action is Fail,
{
}

} // verus!
