use aghub_core::install::{AgentInstallResult, FetchedSkillInstallReport};
use aghub_core::models::{LocalSkillLockEntry, Locks, SkillLockEntry};
use aghub_core::rename::{
    installed_paths, new_name_exists_in_scope, rename_success, new_name_rollback, old_skill_for_removal, remove_lock_entry,
    rename_source_from_lock, rename_step, rename_target_paths, restore_lock_entry, InstallOutcome, LockUndo,
    RenameAction, RenameError, RenameEvent, RenameScope, RenameStage, Rollback,
};
use aghub_core::models::ResourceScope;
use aghub_core::table::LockTable;

fn global_entry(skill_path: Option<&str>) -> SkillLockEntry {
    SkillLockEntry {
        source: "owner/repo".to_string(),
        source_type: "github".to_string(),
        source_url: "https://github.com/owner/repo.git".to_string(),
        ref_name: Some("main".to_string()),
        skill_path: skill_path.map(|s| s.to_string()),
        skill_folder_hash: "h".to_string(),
        content_hash: None,
        ref_commit: None,
        installed_at: "t".to_string(),
        updated_at: "t".to_string(),
        plugin_name: None,
    }
}

fn local_entry() -> LocalSkillLockEntry {
    LocalSkillLockEntry {
        source_url: None,
        ref_commit: None,
        source: "owner/repo".to_string(),
        ref_name: None,
        source_type: "github".to_string(),
        computed_hash: "h".to_string(),
        skill_path: Some("s/SKILL.md".to_string()),
    }
}

fn locks() -> Locks {
    Locks { global: LockTable::new(), project: LockTable::new() }
}

fn step(stage: RenameStage, event: RenameEvent) -> (RenameStage, RenameAction) {
    rename_step("old", "new", &RenameScope::Global, stage, event)
}

#[test]
fn a_clean_rename_walks_every_stage_and_commits() {
    let events = vec![
        (RenameStage::Guard, RenameEvent::Guard(Ok(()))),
        (RenameStage::Agents, RenameEvent::Agents(2)),
        (RenameStage::SkillFile, RenameEvent::SkillFile(true)),
        (RenameStage::Parse, RenameEvent::Parsed(Ok("new".to_string()))),
        (RenameStage::Target, RenameEvent::Target(false)),
        (RenameStage::Snapshot, RenameEvent::Snapshot(Ok(()))),
        (RenameStage::OldLock, RenameEvent::OldLocked(true)),
        (RenameStage::Unchanged, RenameEvent::Unchanged(Ok(()))),
        (RenameStage::Install, RenameEvent::Installed(Ok(InstallOutcome { rows: 1, failed_agent: None }))),
        (RenameStage::Removal, RenameEvent::Removed(Ok(0))),
    ];
    let mut stage = RenameStage::Guard;
    for (expected, event) in events {
        assert_eq!(stage, expected);
        let (next, action) = step(stage, event);
        assert!(matches!(action, RenameAction::Continue));
        stage = next;
    }
    assert_eq!(stage, RenameStage::LockRemoval);
    let (next, action) = step(stage, RenameEvent::LockRemoved(Ok(())));
    assert_eq!(next, RenameStage::Done);
    assert!(matches!(action, RenameAction::Commit));
}

#[test]
fn a_busy_lock_fails_with_nothing_to_roll_back() {
    let (next, action) = step(RenameStage::Guard, RenameEvent::Guard(Err("busy".into())));
    assert_eq!(next, RenameStage::Done);
    match action {
        RenameAction::Fail { rollback, error } => {
            assert_eq!(rollback, Rollback::Nothing);
            assert!(matches!(error, RenameError::Locked(ref m) if m == "busy"));
        }
        other => panic!("expected Fail, got {other:?}"),
    }
}

#[test]
fn a_degenerate_rename_is_refused_before_anything() {
    let (_, action) = rename_step("old skill", "old-skill", &RenameScope::Global, RenameStage::Guard, RenameEvent::Guard(Ok(())));
    assert!(matches!(action, RenameAction::Fail { rollback: Rollback::Nothing, error: RenameError::SameSanitizedName }));
}

#[test]
fn pre_install_refusals_carry_their_names() {
    let (_, a) = step(RenameStage::Agents, RenameEvent::Agents(0));
    assert!(matches!(a, RenameAction::Fail { error: RenameError::NoInstalledCopy(ref n), .. } if n == "old"));
    let (_, a) = step(RenameStage::Parse, RenameEvent::Parsed(Ok("other".into())));
    match a {
        RenameAction::Fail { error: RenameError::NameMismatch { declared, expected }, rollback } => {
            assert_eq!(declared, "other");
            assert_eq!(expected, "new");
            assert_eq!(rollback, Rollback::Nothing);
        }
        other => panic!("expected NameMismatch, got {other:?}"),
    }
    let (_, a) = step(RenameStage::Target, RenameEvent::Target(true));
    assert!(matches!(a, RenameAction::Fail { error: RenameError::TargetExists(ref n), .. } if n == "new"));
    let (_, a) = rename_step("old", "new", &RenameScope::Project { root: "/p".into() }, RenameStage::OldLock, RenameEvent::OldLocked(false));
    match a {
        RenameAction::Fail { error: RenameError::NotLocked(m), .. } => {
            assert_eq!(m, "'old' is not in the project lock; refusing to rename a skill that is not lock-managed")
        }
        other => panic!("expected NotLocked, got {other:?}"),
    }
}

#[test]
fn install_failures_undo_only_the_new_name() {
    let (_, a) = step(RenameStage::Install, RenameEvent::Installed(Ok(InstallOutcome { rows: 2, failed_agent: Some("gemini".into()) })));
    match a {
        RenameAction::Fail { rollback, error } => {
            assert_eq!(rollback, Rollback::NewName);
            assert_eq!(error.message(), "Failed to install renamed skill: agent 'gemini' failed to install");
        }
        other => panic!("{other:?}"),
    }
    let (_, a) = step(RenameStage::Install, RenameEvent::Installed(Ok(InstallOutcome { rows: 0, failed_agent: None })));
    assert!(matches!(a, RenameAction::Fail { rollback: Rollback::NewName, error: RenameError::InstallFailed(ref m) } if m == "no agent received the skill"));
}

#[test]
fn failures_after_the_old_name_is_touched_roll_everything_back() {
    let (_, a) = step(RenameStage::Removal, RenameEvent::Removed(Err("EACCES".into())));
    assert!(matches!(a, RenameAction::Fail { rollback: Rollback::Everything, error: RenameError::RemovalFailed(ref m) } if m == "Failed to remove old skill 'old': EACCES"));
    let (_, a) = step(RenameStage::Removal, RenameEvent::Removed(Ok(1)));
    assert!(matches!(a, RenameAction::Fail { rollback: Rollback::Everything, error: RenameError::RemovalFailed(ref m) } if m == "Partial removal failure removing old skill 'old'"));
    let (_, a) = step(RenameStage::LockRemoval, RenameEvent::LockRemoved(Err("disk full".into())));
    assert!(matches!(a, RenameAction::Fail { rollback: Rollback::Everything, error: RenameError::LockRemovalFailed(ref m) } if m == "Failed to remove old lock entry 'old': disk full"));
}

#[test]
fn rename_source_reads_the_old_entry() {
    let mut l = locks();
    l.global.insert("old".to_string(), global_entry(Some("s/SKILL.md")));
    let src = rename_source_from_lock("old", &RenameScope::Global, &l).unwrap();
    assert_eq!(src.source, "owner/repo");
    assert_eq!(src.source_url, "https://github.com/owner/repo.git");
    assert_eq!(src.skill_path, "s/SKILL.md");
    assert!(src.captured.describes("owner/repo", "s/SKILL.md"));

    let err = rename_source_from_lock("missing", &RenameScope::Global, &l).unwrap_err();
    assert!(matches!(err, RenameError::NotLocked(ref m) if m == "Skill is not in global lock"));
    l.global.insert("nopath".to_string(), global_entry(None));
    let err = rename_source_from_lock("nopath", &RenameScope::Global, &l).unwrap_err();
    assert!(matches!(err, RenameError::NotLocked(ref m) if m == "Locked skill has no skillPath"));

    l.project.insert("old".to_string(), local_entry());
    let src = rename_source_from_lock("old", &RenameScope::Project { root: "/p".into() }, &l).unwrap();
    assert_eq!(src.source_url, "owner/repo", "without a recorded clone URL the source is fetched");
    let err = rename_source_from_lock("x", &RenameScope::Project { root: "/p".into() }, &l).unwrap_err();
    assert!(matches!(err, RenameError::NotLocked(ref m) if m == "Skill is not in project lock"));
}

#[test]
fn target_paths_and_the_taken_check() {
    let paths = rename_target_paths("New Skill", &vec!["/a/skills".to_string(), "/b/skills/".to_string()], Some("/m"));
    assert_eq!(paths, vec!["/a/skills/new-skill", "/b/skills/new-skill", "/m/new-skill"]);
    let mut l = locks();
    assert!(!new_name_exists_in_scope("n", ResourceScope::GlobalOnly, None, &l, &vec![false, false]));
    assert!(new_name_exists_in_scope("n", ResourceScope::GlobalOnly, None, &l, &vec![false, true]));
    l.global.insert("n".to_string(), global_entry(None));
    assert!(new_name_exists_in_scope("n", ResourceScope::GlobalOnly, None, &l, &vec![]));
    assert!(!new_name_exists_in_scope("n", ResourceScope::ProjectOnly, Some("/p"), &l, &vec![]));
}

#[test]
fn restoring_a_removed_entry_gives_the_lock_back() {
    let mut l = locks();
    l.global.insert("old".to_string(), global_entry(Some("s/SKILL.md")));
    l.global.insert("other".to_string(), global_entry(None));
    let saved = l.global.get("old").unwrap().duplicate();
    remove_lock_entry("old", &RenameScope::Global, &mut l);
    assert!(!l.global.contains_key("old"));
    assert!(l.global.contains_key("other"));
    restore_lock_entry("old", &RenameScope::Global, Some(&saved), None, &mut l);
    assert_eq!(l.global.get("old").unwrap().skill_path.as_deref(), Some("s/SKILL.md"));
    restore_lock_entry("x", &RenameScope::Global, None, None, &mut l);
    assert!(!l.global.contains_key("x"));
}

fn report(created_lock: bool, wrote_lock: bool) -> FetchedSkillInstallReport {
    FetchedSkillInstallReport {
        name: "new".into(),
        wrote_lock,
        created_lock,
        replaced_global_entry: None,
        replaced_project_entry: None,
        wrote_master: false,
        created_referrer_dirs: vec!["/a".into()],
        installed_hash: "h".into(),
        agent_results: vec![],
    }
}

#[test]
fn rollback_is_attributed_from_the_install_report() {
    let dirs = vec!["/a".to_string(), "/b".to_string()];
    let r = new_name_rollback(None, &dirs);
    assert_eq!(r.dirs, dirs);
    assert!(r.remove_master);
    assert_eq!(r.lock, LockUndo::Remove);
    let rep = report(false, true);
    let r = new_name_rollback(Some(&rep), &dirs);
    assert_eq!(r.dirs, vec!["/a".to_string()]);
    assert!(!r.remove_master);
    assert_eq!(r.lock, LockUndo::Restore);
    assert_eq!(new_name_rollback(Some(&report(true, true)), &dirs).lock, LockUndo::Remove);
    assert_eq!(new_name_rollback(Some(&report(false, false)), &dirs).lock, LockUndo::Keep);
}

#[test]
fn installed_paths_and_old_skill() {
    let rows = vec![
        AgentInstallResult { agent: "gemini".into(), installed: true, error: None },
        AgentInstallResult { agent: "codex".into(), installed: false, error: None },
        AgentInstallResult { agent: "cursor".into(), installed: true, error: None },
    ];
    let dirs = vec![Some("/h/.gemini/skills".to_string()), Some("/h/.codex/skills".to_string()), None];
    assert_eq!(installed_paths(&rows, &dirs, "new"), vec!["/h/.gemini/skills/new".to_string()]);
    let s = old_skill_for_removal("old", &vec!["/h/.gemini/skills".to_string()]);
    assert_eq!(s.name, "old");
    assert_eq!(s.source_path.as_deref(), Some("/h/.gemini/skills/old/SKILL.md"));
    assert!(old_skill_for_removal("old", &vec![]).source_path.is_none());
}

#[test]
fn a_committed_rename_reports_the_installed_hash_and_paths() {
    let mut rep = report(true, true);
    rep.installed_hash = "feedface".into();
    rep.agent_results = vec![
        AgentInstallResult { agent: "codex".into(), installed: true, error: None },
        AgentInstallResult { agent: "cursor".into(), installed: false, error: None },
        AgentInstallResult { agent: "gemini".into(), installed: true, error: None },
    ];
    let dirs = vec![Some("/p/.codex/skills".to_string()), Some("/p/.cursor/skills".to_string()), None];
    let s = rename_success(&rep, &dirs, "new-name");
    assert_eq!(s.installed_hash, "feedface");
    assert_eq!(s.paths, vec!["/p/.codex/skills/new-name".to_string()]);
}
