use aghub_core::manager::{AgentConfig, ConfigError};
use aghub_core::models::{AgentResources, ResourceScope, Skill};
use aghub_core::removal_target::{skill_for_planned_removal, StoreSkills};

fn config(skills: Vec<Skill>) -> Option<AgentConfig> {
    Some(AgentConfig { mcps: vec![], skills, sub_agents: vec![] })
}

fn at(name: &str, path: &str) -> Skill {
    let mut s = Skill::new(name);
    s.source_path = Some(path.to_string());
    s
}

fn store(path: &str, skills: Vec<Skill>) -> Option<StoreSkills> {
    Some(StoreSkills { store: path.to_string(), skills: Ok(skills) })
}

#[test]
fn the_agents_own_entry_comes_first() {
    let own = at("s", "/p/.cursor/skills/s/SKILL.md");
    let r = skill_for_planned_removal(
        "s",
        true,
        ResourceScope::Both,
        &config(vec![own]),
        &vec![],
        store("/p/.agents/skills", vec![at("s", "/p/.agents/skills/s/SKILL.md")]),
        None,
    )
    .unwrap();
    assert_eq!(r.source_path.as_deref(), Some("/p/.cursor/skills/s/SKILL.md"));
}

#[test]
fn without_all_agents_a_missing_entry_is_not_found() {
    let r = skill_for_planned_removal("s", false, ResourceScope::Both, &config(vec![]), &vec![], None, None);
    assert_eq!(r.unwrap_err(), ConfigError::ResourceNotFound { resource: "skill".into(), name: "s".into() });
    let r = skill_for_planned_removal("s", true, ResourceScope::Both, &None, &vec![], None, None);
    assert!(matches!(r, Err(ConfigError::InvalidConfig(_))));
}

#[test]
fn another_agent_holding_the_skill_is_used() {
    let agents = vec![
        AgentResources { agent_id: "a".into(), skills: vec![at("t", "/a/t/SKILL.md")] },
        AgentResources { agent_id: "b".into(), skills: vec![at("s", "/b/s/SKILL.md")] },
    ];
    let r = skill_for_planned_removal("s", true, ResourceScope::Both, &config(vec![]), &agents, None, None).unwrap();
    assert_eq!(r.source_path.as_deref(), Some("/b/s/SKILL.md"));
}

#[test]
fn one_master_in_a_store_is_the_skill_with_its_own_file_as_canonical() {
    let r = skill_for_planned_removal(
        "s",
        true,
        ResourceScope::GlobalOnly,
        &config(vec![]),
        &vec![],
        store("/p/.agents/skills", vec![at("s", "/p/.agents/skills/s/SKILL.md")]),
        store("/h/.agents/skills", vec![at("s", "/h/.agents/skills/s/SKILL.md")]),
    )
    .unwrap();
    assert_eq!(r.source_path.as_deref(), Some("/h/.agents/skills/s/SKILL.md"));
    assert_eq!(r.canonical_path.as_deref(), Some("/h/.agents/skills/s/SKILL.md"));
}

#[test]
fn two_masters_of_one_name_are_refused() {
    let r = skill_for_planned_removal(
        "s",
        true,
        ResourceScope::ProjectOnly,
        &config(vec![]),
        &vec![],
        store("/p/.agents/skills", vec![at("s", "/p/.agents/skills/s/SKILL.md"), at("s", "/p/.agents/skills/s2/SKILL.md")]),
        None,
    );
    assert_eq!(
        r.unwrap_err(),
        ConfigError::InvalidConfig(
            "skill 's' has two Masters in /p/.agents/skills: '/p/.agents/skills/s/SKILL.md' and \
             '/p/.agents/skills/s2/SKILL.md'. Remove or rename one of them, then re-run."
                .into()
        )
    );
}

#[test]
fn an_unreadable_store_fails_the_lookup_and_nothing_found_is_not_found() {
    let broken = Some(StoreSkills { store: "/h/.agents/skills".into(), skills: Err(ConfigError::Io("denied".into())) });
    let r = skill_for_planned_removal("s", true, ResourceScope::GlobalOnly, &config(vec![]), &vec![], None, broken);
    assert_eq!(r.unwrap_err(), ConfigError::Io("denied".into()));
    let r = skill_for_planned_removal(
        "s",
        true,
        ResourceScope::Both,
        &config(vec![]),
        &vec![],
        store("/p/.agents/skills", vec![]),
        store("/h/.agents/skills", vec![at("t", "/h/.agents/skills/t/SKILL.md")]),
    );
    assert_eq!(r.unwrap_err(), ConfigError::ResourceNotFound { resource: "skill".into(), name: "s".into() });
}

#[test]
fn two_masters_under_one_name_are_refused_not_picked_by_read_dir_order() {
    // Both declare `name: twin`; only one sits at the sanitized slot.
    let r = skill_for_planned_removal(
        "twin",
        true,
        ResourceScope::ProjectOnly,
        &config(vec![]),
        &vec![],
        store(
            "/p/.aghub",
            vec![at("twin", "/p/.aghub/twin/SKILL.md"), at("twin", "/p/.aghub/twin-from-elsewhere/SKILL.md")],
        ),
        None,
    );
    let message = match r.expect_err("two Masters for one name must be refused") {
        ConfigError::InvalidConfig(m) => m,
        other => panic!("unexpected {other:?}"),
    };
    assert!(
        message.contains("twin-from-elsewhere") && message.contains("twin"),
        "the refusal must name both paths so the user can act, got: {message}"
    );
}

#[test]
fn all_agents_delete_of_an_absent_name_is_still_not_found() {
    let r = skill_for_planned_removal(
        "absent-name",
        true,
        ResourceScope::ProjectOnly,
        &config(vec![]),
        &vec![],
        store("/p/.aghub", vec![at("present", "/p/.aghub/present/SKILL.md")]),
        None,
    );
    assert!(matches!(r, Err(ConfigError::ResourceNotFound { .. })));
}

#[test]
fn linked_masters_do_not_bypass_exhaustive_store_validation() {
    let twin = || at("twin", "/p/.aghub/twin/SKILL.md");
    let own = |agent_dir: &str| -> (Option<AgentConfig>, Vec<AgentResources>) {
        let mut linked = at("twin", &format!("/p/{agent_dir}/skills/twin/SKILL.md"));
        linked.canonical_path = Some("/p/.aghub/twin/SKILL.md".into());
        if agent_dir == ".codex" {
            (config(vec![linked]), vec![])
        } else {
            (config(vec![]), vec![AgentResources { agent_id: "cursor".into(), skills: vec![linked] }])
        }
    };
    for agent_dir in [".codex", ".cursor"] {
        for unreadable in [false, true] {
            let (cfg, agents) = own(agent_dir);
            let store = if unreadable {
                Some(StoreSkills {
                    store: "/p/.aghub".into(),
                    skills: Err(ConfigError::Io("cannot read /p/.aghub/other-folder/SKILL.md: denied".into())),
                })
            } else {
                store("/p/.aghub", vec![twin(), at("twin", "/p/.aghub/other-folder/SKILL.md")])
            };
            let error = skill_for_planned_removal("twin", true, ResourceScope::ProjectOnly, &cfg, &agents, store, None)
                .expect_err("an agent link must not bypass store validation");
            let text = format!("{error:?}");
            assert!(
                text.contains("other-folder"),
                "{agent_dir}, unreadable={unreadable}: the refusal must name the other store entry, got: {text}"
            );
        }
    }
}
