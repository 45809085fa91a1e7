use aghub_core::manager::ConfigError;
use aghub_core::models::Skill;
use aghub_core::update_skill::{update_skill_step, UpdateAction, UpdateEvent, UpdateStage, UpdateState};

const OLD_MD: &str = "/h/.agents/skills/old/SKILL.md";

fn state(stage: UpdateStage, linked: bool) -> UpdateState {
    let mut existing = Skill::new("old");
    existing.source_path = Some("/h/.cursor/skills/old/SKILL.md".into());
    if linked {
        existing.canonical_path = Some(OLD_MD.into());
    }
    UpdateState {
        stage,
        index: 2,
        existing,
        path: OLD_MD.into(),
        final_path: OLD_MD.into(),
        body: Some("body".into()),
        relinked: false,
        relink_error: String::new(),
    }
}

#[test]
fn a_lock_failure_is_reported_as_io() {
    let (next, action) =
        update_skill_step("old", &Skill::new("new"), state(UpdateStage::Lock, true), UpdateEvent::Locked(Err("busy".into())));
    assert_eq!(next.stage, UpdateStage::Done);
    assert!(matches!(action, UpdateAction::Fail(ConfigError::Io(m)) if m == "busy"));
}

#[test]
fn an_unchanged_name_writes_in_place() {
    let (next, action) = update_skill_step(
        "old",
        &Skill::new("old"),
        state(UpdateStage::Parse, true),
        UpdateEvent::Parsed(Ok(Some("kept".into()))),
    );
    assert_eq!(next.stage, UpdateStage::Write);
    match action {
        UpdateAction::Write { path, body } => {
            assert_eq!(path, OLD_MD);
            assert_eq!(body.as_deref(), Some("kept"));
        },
        other => panic!("unexpected {other:?}"),
    }
}

#[test]
fn a_renamed_master_checks_its_new_folder_first() {
    let (next, action) =
        update_skill_step("old", &Skill::new("New Name"), state(UpdateStage::Parse, true), UpdateEvent::Parsed(Ok(None)));
    assert_eq!(next.stage, UpdateStage::Target);
    match action {
        UpdateAction::CheckTarget { from, to } => {
            assert_eq!(from, "/h/.agents/skills/old");
            assert_eq!(to, "/h/.agents/skills/new-name");
        },
        other => panic!("unexpected {other:?}"),
    }
}

#[test]
fn a_taken_name_is_refused_before_anything_moves() {
    let (next, action) = update_skill_step(
        "old",
        &Skill::new("new"),
        state(UpdateStage::Target, true),
        UpdateEvent::TargetChecked { resolved: Ok(()), taken: true },
    );
    assert_eq!(next.stage, UpdateStage::Done);
    assert!(matches!(
        action,
        UpdateAction::Fail(ConfigError::ResourceExists { resource, name }) if resource == "skill" && name == "new"
    ));
}

#[test]
fn a_failed_relink_renames_the_master_back() {
    let (next, action) = update_skill_step(
        "old",
        &Skill::new("new"),
        state(UpdateStage::Relink, true),
        UpdateEvent::Relinked(Err("link denied".into())),
    );
    assert_eq!(next.stage, UpdateStage::Rollback);
    match action {
        UpdateAction::RenameBack { from, to } => {
            assert_eq!(from, "/h/.agents/skills/new");
            assert_eq!(to, "/h/.agents/skills/old");
        },
        other => panic!("unexpected {other:?}"),
    }
    let (done, action) = update_skill_step("old", &Skill::new("new"), next, UpdateEvent::RolledBack(Ok(())));
    assert_eq!(done.stage, UpdateStage::Done);
    assert!(matches!(action, UpdateAction::Fail(ConfigError::Io(m)) if m == "link denied"));
}

#[test]
fn a_finished_rename_records_the_new_paths() {
    let mut st = state(UpdateStage::Write, true);
    st.final_path = "/h/.agents/skills/new/SKILL.md".into();
    st.relinked = true;
    let (next, action) = update_skill_step("old", &Skill::new("new"), st, UpdateEvent::Written(Ok(())));
    assert_eq!(next.stage, UpdateStage::Done);
    match action {
        UpdateAction::Finish { index, skill } => {
            assert_eq!(index, 2);
            assert_eq!(skill.name, "new");
            assert_eq!(skill.source_path.as_deref(), Some("/h/.agents/skills/new/SKILL.md"));
            assert_eq!(skill.canonical_path.as_deref(), Some("/h/.agents/skills/new/SKILL.md"));
        },
        other => panic!("unexpected {other:?}"),
    }
}
