use aghub_core::add_skill::{add_skill_step, AddAction, AddEvent, AddRequest, AddStage, AddState, AddUndo};
use aghub_core::classify::LinkNeed;
use aghub_core::install::{materialize_decision, AgentInstallResult, MaterializeDecision};
use aghub_core::manager::ConfigError;
use aghub_core::models::Skill;

fn req(from_path: bool, name: &str, source: &str, as_name: bool) -> AddRequest {
    AddRequest {
        skill: Skill::new(name),
        from_path,
        source_name: source.to_string(),
        as_name_given: as_name,
        link_need: LinkNeed::NeedsLink { referrer_dir: "/h/.gemini/skills".into() },
        master_md: format!("/h/.agents/skills/{name}/SKILL.md"),
    }
}

fn state(stage: AddStage) -> AddState {
    AddState { stage, wrote_master: false, created_referrer_dirs: vec![] }
}

fn ok_row() -> Vec<AgentInstallResult> {
    vec![AgentInstallResult { agent: "gemini".into(), installed: true, error: None }]
}

#[test]
fn no_store_gives_a_failed_row_per_agent() {
    let agents = vec!["a".to_string(), "b".to_string()];
    let needs = vec![LinkNeed::Unsupported, LinkNeed::Unsupported];
    match materialize_decision(false, &agents, &needs) {
        MaterializeDecision::NoStore { rows } => {
            assert_eq!(rows.len(), 2);
            assert_eq!(rows[1].agent, "b");
            assert!(!rows[1].installed);
            assert_eq!(rows[1].error.as_deref(), Some("Cannot resolve .agents canonical directory"));
        },
        other => panic!("unexpected {other:?}"),
    }
    assert!(matches!(materialize_decision(true, &vec![], &vec![]), MaterializeDecision::NothingToDo));
}

#[test]
fn an_unsupported_agent_refuses_before_the_master_is_written() {
    let agents = vec!["a".to_string(), "b".to_string(), "c".to_string()];
    let needs = vec![
        LinkNeed::NeedsLink { referrer_dir: "/x".into() },
        LinkNeed::Unsupported,
        LinkNeed::Unsupported,
    ];
    match materialize_decision(true, &agents, &needs) {
        MaterializeDecision::Refuse { agent, message } => {
            assert_eq!(agent, "b");
            assert_eq!(message, "agent 'b' does not support persistent skill creation in this scope");
        },
        other => panic!("unexpected {other:?}"),
    }
}

#[test]
fn materialize_links_each_shared_referrer_dir_once() {
    let agents = vec!["a".to_string(), "b".to_string(), "c".to_string()];
    let needs = vec![
        LinkNeed::NeedsLink { referrer_dir: "/shared".into() },
        LinkNeed::NeedsLink { referrer_dir: "/own".into() },
        LinkNeed::NeedsLink { referrer_dir: "/shared".into() },
    ];
    match materialize_decision(true, &agents, &needs) {
        MaterializeDecision::Link { dirs } => assert_eq!(dirs, vec!["/shared".to_string(), "/own".to_string()]),
        other => panic!("unexpected {other:?}"),
    }
}

#[test]
fn a_hand_written_skill_writes_its_master_then_links_and_records() {
    let r = req(false, "demo", "demo", false);
    let (st, a) = add_skill_step(&r, state(AddStage::Lock), AddEvent::Locked(Ok(())));
    assert!(matches!(a, AddAction::Continue));
    let (st, a) = add_skill_step(&r, st, AddEvent::Present { existing: None, slot_links_master: false });
    assert!(matches!(a, AddAction::Continue));
    let (st, a) = add_skill_step(&r, st, AddEvent::MasterChecked { exists: false });
    assert!(matches!(a, AddAction::WriteMaster));
    let (st, a) = add_skill_step(&r, st, AddEvent::MasterWritten(Ok(())));
    assert!(matches!(a, AddAction::Materialize));
    let (st, a) = add_skill_step(&r, st, AddEvent::Materialized(Ok((ok_row(), false, vec!["/h/.gemini/skills".into()]))));
    assert_eq!(st.stage, AddStage::Done);
    match a {
        AddAction::Finish { result: Ok(add), record: true } => {
            assert!(add.wrote_master && !add.already_installed);
            assert_eq!(add.skill.source_path.as_deref(), Some("/h/.agents/skills/demo/SKILL.md"));
            assert_eq!(add.created_referrer_dirs, vec!["/h/.gemini/skills".to_string()]);
        },
        other => panic!("unexpected {other:?}"),
    }
}

#[test]
fn a_readd_is_a_noop_only_when_the_slot_links_the_master() {
    let r = req(false, "demo", "demo", false);
    let (_, a) = add_skill_step(&r, state(AddStage::Present), AddEvent::Present { existing: Some(Skill::new("demo")), slot_links_master: true });
    assert!(matches!(a, AddAction::Finish { result: Ok(ref add), record: false } if add.already_installed));
    let (_, a) = add_skill_step(&r, state(AddStage::Present), AddEvent::Present { existing: Some(Skill::new("demo")), slot_links_master: false });
    assert!(matches!(a, AddAction::Finish { result: Err(ConfigError::ResourceExists { .. }), record: false }));
    let named = req(true, "demo", "src", true);
    let (_, a) = add_skill_step(&named, state(AddStage::Present), AddEvent::Present { existing: Some(Skill::new("demo")), slot_links_master: true });
    assert!(matches!(a, AddAction::Fail { undo: AddUndo::Nothing, error: ConfigError::ResourceExists { .. } }));
}

#[test]
fn a_renamed_path_install_needs_a_fresh_master_and_undoes_on_failure() {
    let r = req(true, "new-name", "src-name", true);
    let (st, a) = add_skill_step(&r, state(AddStage::Present), AddEvent::Present { existing: None, slot_links_master: false });
    assert!(matches!(a, AddAction::Materialize));
    let (_, a) = add_skill_step(&r, st, AddEvent::Materialized(Ok((ok_row(), false, vec!["/d".into()]))));
    assert!(matches!(a, AddAction::Fail { undo: AddUndo::Referrers { ref dirs }, error: ConfigError::ResourceExists { .. } } if dirs == &vec!["/d".to_string()]));
    let st = state(AddStage::Materialize);
    let (st, a) = add_skill_step(&r, st, AddEvent::Materialized(Ok((ok_row(), true, vec!["/d".into()]))));
    assert!(matches!(a, AddAction::RewriteName));
    let (_, a) = add_skill_step(&r, st, AddEvent::Renamed(Err("denied".into())));
    assert!(matches!(a, AddAction::Fail { undo: AddUndo::ReferrersAndMaster { .. }, error: ConfigError::Io(ref m) } if m == "denied"));
}

#[test]
fn an_existing_master_is_reported_as_it_reads_back() {
    let r = req(true, "demo", "demo", false);
    let (st, a) = add_skill_step(&r, state(AddStage::Materialize), AddEvent::Materialized(Ok((ok_row(), false, vec![]))));
    assert!(matches!(a, AddAction::ReadMaster));
    let (_, a) = add_skill_step(&r, st, AddEvent::ReadBack(None));
    match a {
        AddAction::Fail { undo: AddUndo::Materialized { .. }, error: ConfigError::InvalidConfig(m) } => {
            assert!(m.starts_with("the existing master at '/h/.agents/skills/demo/SKILL.md' does not parse"))
        },
        other => panic!("unexpected {other:?}"),
    }
    let failed_link = vec![AgentInstallResult { agent: "gemini".into(), installed: false, error: Some("x".into()) }];
    let (_, a) = add_skill_step(&r, state(AddStage::Materialize), AddEvent::Materialized(Ok((failed_link, true, vec![]))));
    assert!(matches!(a, AddAction::Fail { undo: AddUndo::Nothing, error: ConfigError::ResourceExists { .. } }));
}
