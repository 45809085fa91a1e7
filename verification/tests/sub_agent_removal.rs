use aghub_core::manager::{AgentConfig, ConfigError, ConfigManager, SubAgent};
use aghub_core::models::ResourceScope;
use aghub_core::sub_agent_removal::{
    remove_sub_agent_step, tomb_path, ExpectedSource, ParkResult, SubRemovalAction, SubRemovalEvent, SubRemovalStage,
    SubRemovalState,
};

const FILE: &str = "/p/.cursor/agents/linter.md";

fn agent(name: &str, path: Option<&str>) -> SubAgent {
    let mut a = SubAgent::new(name);
    a.source_path = path.map(|p| p.to_string());
    a
}

fn manager() -> ConfigManager {
    ConfigManager {
        agent: "Cursor".into(),
        agent_id: "cursor".into(),
        supports_mcp: true,
        supports_mcp_enable_disable: true,
        supports_sub_agents: true,
        write_scope: ResourceScope::ProjectOnly,
        project_root: Some("/p".into()),
        config: Some(AgentConfig {
            mcps: vec![],
            skills: vec![],
            sub_agents: vec![agent("linter", Some(FILE)), agent("planner", None)],
        }),
    }
}

fn start() -> SubRemovalState {
    SubRemovalState { stage: SubRemovalStage::Start, path: None, tomb: String::new(), parked: false, removed: None }
}

fn names(m: &ConfigManager) -> Vec<String> {
    m.config.as_ref().unwrap().sub_agents.iter().map(|a| a.name.clone()).collect()
}

fn begin(dry_run: bool) -> SubRemovalEvent {
    SubRemovalEvent::Start { dry_run, confirm: !dry_run, expected: None }
}

#[test]
fn the_tombstone_replaces_the_files_extension() {
    assert_eq!(tomb_path(FILE), "/p/.cursor/agents/linter.md.aghub-tomb");
    assert_eq!(tomb_path("/p/agents/plain"), "/p/agents/plain.md.aghub-tomb");
    assert_eq!(tomb_path("/p/a.d/linter.toml"), "/p/a.d/linter.md.aghub-tomb");
    assert_eq!(tomb_path("/p/agents/.hidden"), "/p/agents/.hidden.md.aghub-tomb");
}

#[test]
fn a_dry_run_plans_the_backing_file_and_changes_nothing() {
    let mut m = manager();
    let (next, action) = remove_sub_agent_step(&mut m, "linter", start(), begin(true));
    assert_eq!(next.stage, SubRemovalStage::Done);
    match action {
        SubRemovalAction::Finish(o) => {
            assert!(!o.executed);
            assert_eq!(o.plan.paths, vec![FILE.to_string()]);
        },
        other => panic!("unexpected {other:?}"),
    }
    assert_eq!(names(&m), vec!["linter".to_string(), "planner".to_string()]);
    let (_, action) = remove_sub_agent_step(&mut m, "ghost", start(), begin(true));
    assert!(matches!(action, SubRemovalAction::Fail(ConfigError::ResourceNotFound { .. })));
}

#[test]
fn a_removal_parks_saves_then_drops_the_tombstone() {
    let mut m = manager();
    let (st, action) = remove_sub_agent_step(&mut m, "linter", start(), begin(false));
    assert!(matches!(action, SubRemovalAction::Park { ref path, ref tomb }
        if path == FILE && tomb == "/p/.cursor/agents/linter.md.aghub-tomb"));
    assert_eq!(names(&m).len(), 2, "nothing leaves the config before the file is parked");
    let (st, action) = remove_sub_agent_step(&mut m, "linter", st, SubRemovalEvent::Parked(ParkResult::Moved));
    assert!(matches!(action, SubRemovalAction::Save));
    assert_eq!(names(&m), vec!["planner".to_string()]);
    let (st, action) = remove_sub_agent_step(&mut m, "linter", st, SubRemovalEvent::Saved(Ok(())));
    assert!(matches!(action, SubRemovalAction::DropTomb { ref tomb } if tomb == "/p/.cursor/agents/linter.md.aghub-tomb"));
    let (_, action) = remove_sub_agent_step(&mut m, "linter", st, SubRemovalEvent::Dropped(Ok(())));
    match action {
        SubRemovalAction::Finish(o) => {
            assert!(o.executed);
            assert_eq!(o.plan.paths, vec![FILE.to_string()]);
        },
        other => panic!("unexpected {other:?}"),
    }
}

#[test]
fn a_failed_save_restores_the_file_and_the_entry() {
    let mut m = manager();
    let (st, _) = remove_sub_agent_step(&mut m, "linter", start(), begin(false));
    let (st, _) = remove_sub_agent_step(&mut m, "linter", st, SubRemovalEvent::Parked(ParkResult::Moved));
    let (st, action) =
        remove_sub_agent_step(&mut m, "linter", st, SubRemovalEvent::Saved(Err(ConfigError::Io("disk full".into()))));
    assert_eq!(st.stage, SubRemovalStage::Done);
    match action {
        SubRemovalAction::RestoreThenFail { restore, error } => {
            assert_eq!(restore, Some(("/p/.cursor/agents/linter.md.aghub-tomb".to_string(), FILE.to_string())));
            assert_eq!(error, ConfigError::Io("disk full".into()));
        },
        other => panic!("unexpected {other:?}"),
    }
    assert_eq!(names(&m), vec!["planner".to_string(), "linter".to_string()]);
}

#[test]
fn an_existing_tombstone_or_a_changed_source_refuses() {
    let mut m = manager();
    let (st, _) = remove_sub_agent_step(&mut m, "linter", start(), begin(false));
    let (_, action) = remove_sub_agent_step(&mut m, "linter", st, SubRemovalEvent::Parked(ParkResult::TombExists));
    assert!(matches!(action, SubRemovalAction::Fail(ConfigError::InvalidConfig(ref msg))
        if msg == "Sub-agent recovery tombstone already exists: /p/.cursor/agents/linter.md.aghub-tomb"));
    assert_eq!(names(&m).len(), 2);
    let mut captured = agent("linter", Some(FILE));
    captured.description = Some("older".into());
    let expected = ExpectedSource { agent: captured, same_path: true, codex_copy: false, unmanaged: Ok(false) };
    let (_, action) = remove_sub_agent_step(
        &mut m,
        "linter",
        start(),
        SubRemovalEvent::Start { dry_run: false, confirm: true, expected: Some(expected) },
    );
    assert!(matches!(action, SubRemovalAction::Fail(ConfigError::InvalidConfig(ref msg))
        if msg == "Sub-agent 'linter' changed during reconcile; the original was not removed"));
}

#[test]
fn a_config_only_sub_agent_is_dropped_and_saved() {
    let mut m = manager();
    let (st, action) = remove_sub_agent_step(&mut m, "planner", start(), begin(false));
    assert!(matches!(action, SubRemovalAction::Save));
    assert_eq!(names(&m), vec!["linter".to_string()]);
    let (_, action) = remove_sub_agent_step(&mut m, "planner", st, SubRemovalEvent::Saved(Ok(())));
    assert!(matches!(action, SubRemovalAction::Finish(ref o) if o.executed && o.plan.paths.is_empty()));
}
