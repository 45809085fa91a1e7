use aghub_core::manager::ConfigError;
use aghub_core::models::Skill;
use aghub_core::remove_skill::{remove_skill_step, RemoveAction, RemoveEvent, RemoveStage, RemoveState};

fn start(stage: RemoveStage) -> RemoveState {
    RemoveState { stage, index: 0, path: String::new(), is_link: false }
}

fn located(existing: Option<(usize, Skill)>) -> RemoveEvent {
    RemoveEvent::Located {
        loaded: true,
        existing,
        target_dir: Some("/h/.cursor/skills".into()),
        home: Some("/h".into()),
    }
}

#[test]
fn a_skill_gone_since_the_caller_looked_is_already_removed() {
    let (next, action) = remove_skill_step("s", "Cursor", true, start(RemoveStage::Locate), located(None));
    assert_eq!(next.stage, RemoveStage::Done);
    assert_eq!(action_index(action), Some(None));
    let (_, action) = remove_skill_step("s", "Cursor", false, start(RemoveStage::Locate), located(None));
    assert!(matches!(
        action,
        RemoveAction::Fail(ConfigError::ResourceNotFound { resource, name }) if resource == "skill" && name == "s"
    ));
}

fn action_index(action: RemoveAction) -> Option<Option<usize>> {
    match action {
        RemoveAction::Finish { index } => Some(index),
        _ => None,
    }
}

#[test]
fn the_agents_own_slot_is_inspected_then_removed() {
    let (next, action) =
        remove_skill_step("My Skill", "Cursor", true, start(RemoveStage::Locate), located(Some((3, Skill::new("My Skill")))));
    assert_eq!(next.stage, RemoveStage::Inspect);
    match action {
        RemoveAction::Inspect { path } => assert_eq!(path, "/h/.cursor/skills/my-skill/SKILL.md"),
        other => panic!("unexpected {other:?}"),
    }
    let (next, action) =
        remove_skill_step("My Skill", "Cursor", true, next, RemoveEvent::Inspected { exists: true, keep: false });
    assert_eq!(next.stage, RemoveStage::Remove);
    assert!(matches!(action, RemoveAction::RemovePath { ref path, is_link: false } if path == "/h/.cursor/skills/my-skill/SKILL.md"));
    let (_, action) = remove_skill_step("My Skill", "Cursor", true, next, RemoveEvent::Removed(Ok(())));
    assert_eq!(action_index(action), Some(Some(3)));
}

#[test]
fn a_folder_other_agents_read_is_refused_for_a_copy_but_a_link_is_unlinked() {
    let copy = RemoveState { stage: RemoveStage::Inspect, index: 1, path: "/h/.agents/skills/s/SKILL.md".into(), is_link: false };
    let (next, action) = remove_skill_step("s", "Cursor", true, copy, RemoveEvent::Inspected { exists: true, keep: true });
    assert_eq!(next.stage, RemoveStage::Done);
    match action {
        RemoveAction::Fail(ConfigError::UnsupportedOperation { operation, resource, agent }) => {
            assert_eq!(operation, "remove for this agent alone");
            assert_eq!(
                resource,
                "shared universal master (or a folder another agent's link still points at) — use remove_skill_planned"
            );
            assert_eq!(agent, "Cursor");
        },
        other => panic!("unexpected {other:?}"),
    }
    let link = RemoveState { stage: RemoveStage::Inspect, index: 1, path: "/h/.cursor/skills/s/SKILL.md".into(), is_link: true };
    let (_, action) = remove_skill_step("s", "Cursor", true, link, RemoveEvent::Inspected { exists: true, keep: true });
    assert!(matches!(action, RemoveAction::RemovePath { is_link: true, .. }));
}

#[test]
fn a_missing_file_drops_only_the_entry() {
    let st = RemoveState { stage: RemoveStage::Inspect, index: 4, path: "/x/SKILL.md".into(), is_link: false };
    let (_, action) = remove_skill_step("s", "Cursor", true, st, RemoveEvent::Inspected { exists: false, keep: true });
    assert_eq!(action_index(action), Some(Some(4)));
    let (_, action) = remove_skill_step(
        "s",
        "Cursor",
        true,
        start(RemoveStage::Locate),
        RemoveEvent::Located { loaded: false, existing: None, target_dir: None, home: None },
    );
    assert!(matches!(action, RemoveAction::Fail(ConfigError::InvalidConfig(m)) if m == "No configuration loaded"));
}
