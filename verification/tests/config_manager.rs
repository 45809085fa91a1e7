use aghub_core::classify::LinkNeed;
use aghub_core::install::AgentInstallResult;
use aghub_core::manager::{
    absent_skill_removal, resolve_source_path, skill_file_rename, skill_path_removal, skill_removal_file,
    skill_update_file, updated_skill_record, AgentConfig, ConfigError, ConfigManager, McpServer, SkillFileRename,
    SkillPathRemoval, SubAgent, SubAgentPatch,
};
use aghub_core::models::{ResourceScope, Skill};

fn mcp(name: &str) -> McpServer {
    McpServer { name: name.into(), command: Some("npx".into()), args: vec![], url: None, enabled: true, timeout: None }
}

fn manager() -> ConfigManager {
    ConfigManager {
        agent: "Gemini".into(),
        agent_id: "gemini".into(),
        supports_mcp: true,
        supports_mcp_enable_disable: true,
        supports_sub_agents: true,
        write_scope: ResourceScope::GlobalOnly,
        project_root: None,
        config: Some(AgentConfig { mcps: vec![], skills: vec![Skill::new("s")], sub_agents: vec![] }),
    }
}

#[test]
fn add_then_get_then_remove_restores_the_list() {
    let mut m = manager();
    m.add_mcp(mcp("a")).unwrap();
    m.add_mcp(mcp("b")).unwrap();
    assert_eq!(m.get_mcp("b").unwrap().name, "b");
    assert!(matches!(m.add_mcp(mcp("a")), Err(ConfigError::ResourceExists { ref resource, ref name }) if resource == "MCP server" && name == "a"));
    m.remove_mcp("b").unwrap();
    let names: Vec<_> = m.config.as_ref().unwrap().mcps.iter().map(|s| s.name.clone()).collect();
    assert_eq!(names, vec!["a".to_string()]);
    assert!(matches!(m.remove_mcp("b"), Err(ConfigError::ResourceNotFound { .. })));
}

#[test]
fn a_dry_run_removal_changes_nothing() {
    let mut m = manager();
    m.add_mcp(mcp("a")).unwrap();
    let out = m.remove_mcp_planned("a", true, false).unwrap();
    assert!(!out.executed);
    assert!(out.plan.paths.is_empty());
    assert!(m.get_mcp("a").is_some());
    let out = m.remove_mcp_planned("a", false, false).unwrap();
    assert!(out.executed, "no confirmation is needed for a config entry");
    assert!(m.get_mcp("a").is_none());
}

#[test]
fn the_guarded_removal_checks_the_request_and_the_readers() {
    let mut m = manager();
    m.add_mcp(mcp("a")).unwrap();
    let err = m.remove_mcp_planned_single_guarded("a", false, true, &vec!["codex".into()], || Ok(())).unwrap_err();
    assert_eq!(err, ConfigError::InvalidConfig("removal request does not include the target agent".into()));
    let err = m
        .remove_mcp_planned_single_guarded("a", false, true, &vec!["gemini".into()], || Err(ConfigError::InvalidConfig("read elsewhere".into())))
        .unwrap_err();
    assert_eq!(err, ConfigError::InvalidConfig("read elsewhere".into()));
    assert!(m.get_mcp("a").is_some());
    let out = m.remove_mcp_planned_single_guarded("a", false, true, &vec!["gemini".into()], || Ok(())).unwrap();
    assert!(out.executed);
    assert!(m.get_mcp("a").is_none());
}

#[test]
fn enable_and_disable_flip_only_the_flag() {
    let mut m = manager();
    m.add_mcp(mcp("a")).unwrap();
    m.disable_mcp("a").unwrap();
    assert!(!m.get_mcp("a").unwrap().enabled);
    assert_eq!(m.get_mcp("a").unwrap().command.as_deref(), Some("npx"));
    m.enable_mcp("a").unwrap();
    assert!(m.get_mcp("a").unwrap().enabled);
    m.supports_mcp_enable_disable = false;
    assert!(matches!(m.enable_mcp("a"), Err(ConfigError::UnsupportedOperation { ref operation, .. }) if operation == "enable"));
}

#[test]
fn update_refuses_a_taken_name_and_a_timeout() {
    let mut m = manager();
    m.add_mcp(mcp("a")).unwrap();
    m.add_mcp(mcp("b")).unwrap();
    assert!(matches!(m.update_mcp("a", mcp("b"), true, Ok(false)), Err(ConfigError::ResourceExists { .. })));
    let mut t = mcp("a");
    t.timeout = Some(30);
    assert!(matches!(m.update_mcp("a", t, true, Ok(false)), Err(ConfigError::UnsupportedOperation { .. })));
    let mut c = mcp("c");
    c.enabled = false;
    m.update_mcp("a", c, true, Ok(false)).unwrap();
    assert!(m.get_mcp("a").is_none());
    assert!(!m.get_mcp("c").unwrap().enabled);
    assert!(matches!(m.update_mcp("zz", mcp("zz"), true, Ok(false)), Err(ConfigError::ResourceNotFound { .. })));
}

#[test]
fn skills_cannot_be_switched_but_missing_ones_are_not_found_first() {
    let mut m = manager();
    assert!(matches!(m.disable_skill("nope"), Err(ConfigError::ResourceNotFound { .. })));
    assert!(matches!(m.enable_skill("s"), Err(ConfigError::UnsupportedOperation { ref resource, .. }) if resource == "skill"));
    assert_eq!(m.get_skill("s").unwrap().name, "s");
    let mut none = manager();
    none.config = None;
    assert_eq!(none.disable_skill("s"), Err(ConfigError::InvalidConfig("No configuration loaded".into())));
}

#[test]
fn sub_agents_add_patch_list_and_remove() {
    let mut m = manager();
    m.add_sub_agent(SubAgent::new("tester")).unwrap();
    assert!(matches!(m.add_sub_agent(SubAgent::new("tester")), Err(ConfigError::ResourceExists { .. })));
    m.add_sub_agent(SubAgent::new("planner")).unwrap();
    assert!(matches!(
        m.update_sub_agent("tester", SubAgentPatch { name: Some("planner".into()), ..Default::default() }),
        Err(ConfigError::ResourceExists { .. })
    ));
    m.update_sub_agent("tester", SubAgentPatch { instruction: Some("look".into()), ..Default::default() }).unwrap();
    assert_eq!(m.get_sub_agent("tester").unwrap().instruction.as_deref(), Some("look"));
    assert_eq!(m.list_sub_agents().len(), 2);
    let out = m.remove_sub_agent_planned("tester", true, false).unwrap();
    assert!(!out.executed && out.plan.paths.is_empty());
    m.remove_sub_agent("tester").unwrap();
    assert!(m.get_sub_agent("tester").is_none());
    m.supports_sub_agents = false;
    assert!(matches!(m.add_sub_agent(SubAgent::new("x")), Err(ConfigError::UnsupportedOperation { .. })));
}

#[test]
fn ensure_single_agent_installed_covers_every_branch() {
    let needs_link = LinkNeed::NeedsLink { referrer_dir: "/x".into() };
    let ok = vec![AgentInstallResult { agent: "gemini".into(), installed: true, error: None }];
    assert!(ConfigManager::ensure_single_agent_installed(&ok, &needs_link, "s").is_ok());
    let conflict = vec![AgentInstallResult { agent: "gemini".into(), installed: false, error: Some("slot occupied".to_string()) }];
    let err = ConfigManager::ensure_single_agent_installed(&conflict, &needs_link, "my-skill").unwrap_err();
    assert!(matches!(err, ConfigError::ResourceExists { .. }), "a NeedsLink soft-failure must surface resource_exists, got {err:?}");
    assert!(ConfigManager::ensure_single_agent_installed(&vec![], &needs_link, "s").is_err());
    assert!(ConfigManager::ensure_single_agent_installed(&conflict, &LinkNeed::Unsupported, "s").is_ok());
}

#[test]
fn skill_file_paths_for_update_and_removal() {
    assert_eq!(resolve_source_path("~/x/SKILL.md", Some("/home/u")), "/home/u/x/SKILL.md");
    assert_eq!(resolve_source_path("~/x/SKILL.md", None), "~/x/SKILL.md");
    let mut s = Skill::new("My Skill");
    assert_eq!(skill_update_file(&s, "My Skill", Some("/a/skills"), None).as_deref(), Some("/a/skills/my-skill/SKILL.md"));
    assert_eq!(skill_removal_file(&s, "My Skill", None, None), None);
    s.source_path = Some("/src/SKILL.md".into());
    s.canonical_path = Some("/m/my-skill/SKILL.md".into());
    assert_eq!(skill_update_file(&s, "My Skill", None, None).as_deref(), Some("/m/my-skill/SKILL.md"));
    assert_eq!(skill_removal_file(&s, "My Skill", None, None).as_deref(), Some("/src/SKILL.md"));
}

#[test]
fn a_rename_moves_the_folder_or_the_loose_file() {
    assert_eq!(skill_file_rename("/a/old/SKILL.md", "old", "new"), SkillFileRename::Master);
    assert_eq!(skill_file_rename("/a/old.md", "old", "new"), SkillFileRename::File { to: "/a/new.md".into() });
    assert_eq!(skill_file_rename("/a/other.md", "old", "new"), SkillFileRename::Keep);
    assert_eq!(skill_file_rename("/a/old/SKILL.md", "old", "old"), SkillFileRename::Keep);
    let existing = Skill::new("old");
    let r = updated_skill_record(Skill::new("new"), &existing, "/a/new.md", "/a/old.md", false);
    assert_eq!(r.source_path.as_deref(), Some("/a/new.md"));
    assert!(r.canonical_path.is_none());
    let r = updated_skill_record(Skill::new("new"), &existing, "/m/new/SKILL.md", "/m/old/SKILL.md", true);
    assert_eq!(r.canonical_path.as_deref(), Some("/m/new/SKILL.md"));
}

#[test]
fn single_agent_removal_takes_the_link_or_the_own_folder() {
    assert_eq!(
        skill_path_removal("/m/s/SKILL.md", "s", true, Some("/a/skills")),
        SkillPathRemoval::UnlinkReferrer { link: "/a/skills/s".into() }
    );
    assert_eq!(skill_path_removal("/m/s/SKILL.md", "s", true, None), SkillPathRemoval::Nothing);
    assert_eq!(skill_path_removal("/a/skills/s/SKILL.md", "s", false, None), SkillPathRemoval::RemoveDir { dir: "/a/skills/s".into() });
    assert_eq!(skill_path_removal("/a/skills/s.md", "s", false, None), SkillPathRemoval::RemoveFile { path: "/a/skills/s.md".into() });
    assert!(absent_skill_removal(true, "s").is_ok());
    assert!(matches!(absent_skill_removal(false, "s"), Err(ConfigError::ResourceNotFound { .. })));
}

#[test]
fn a_server_the_dialect_cannot_hold_exactly_is_refused() {
    let mut m = manager();
    m.add_mcp(mcp("a")).unwrap();
    match m.update_mcp("a", mcp("a"), false, Ok(false)) {
        Err(ConfigError::UnsupportedOperation { operation, resource, agent }) => {
            assert_eq!(operation, "update without losing fields");
            assert_eq!(resource, "MCP server");
            assert_eq!(agent, "Gemini");
        },
        other => panic!("expected a refusal, got {other:?}"),
    }
    assert!(matches!(m.add_mcp_exact(mcp("b"), false), Err(ConfigError::UnsupportedOperation { ref operation, .. }) if operation == "add without losing fields"));
    let mut t = mcp("b");
    t.timeout = Some(5);
    assert!(matches!(m.add_mcp_exact(t, true), Err(ConfigError::UnsupportedOperation { .. })));
    m.add_mcp_exact(mcp("b"), true).unwrap();
    assert!(matches!(m.add_mcp_exact(mcp("b"), true), Err(ConfigError::ResourceExists { .. })));
}

#[test]
fn a_rename_that_would_lose_native_fields_is_refused() {
    let mut m = manager();
    m.add_mcp(mcp("a")).unwrap();
    assert_eq!(
        m.update_mcp("a", mcp("renamed"), true, Ok(true)),
        Err(ConfigError::InvalidConfig(
            "MCP server 'a' has unmanaged native fields that cannot be preserved by renaming it".into()
        ))
    );
    assert_eq!(m.update_mcp("a", mcp("renamed"), true, Err(ConfigError::Io("unreadable".into()))), Err(ConfigError::Io("unreadable".into())));
    m.update_mcp("a", mcp("a"), true, Ok(true)).unwrap();
    m.update_mcp("a", mcp("renamed"), true, Ok(false)).unwrap();
    assert!(m.get_mcp("renamed").is_some());
}

#[test]
fn update_with_applies_the_change_to_the_loaded_entry() {
    let mut m = manager();
    m.add_mcp(mcp("a")).unwrap();
    let stored = m
        .update_mcp_with("a", |mut cur: McpServer| { cur.args.push("--port".into()); Ok(cur) }, |_: &McpServer| true, Ok(false))
        .unwrap();
    assert_eq!(stored.args, vec!["--port".to_string()]);
    assert_eq!(m.get_mcp("a").unwrap().args, vec!["--port".to_string()]);
    let refused = m.update_mcp_with("a", |cur: McpServer| Ok(cur), |_: &McpServer| false, Ok(false));
    assert!(matches!(refused, Err(ConfigError::UnsupportedOperation { .. })));
    let failed = m.update_mcp_with("a", |_: McpServer| Err(ConfigError::ValidationFailed("bad".into())), |_: &McpServer| true, Ok(false));
    assert_eq!(failed.unwrap_err(), ConfigError::ValidationFailed("bad".into()));
}
