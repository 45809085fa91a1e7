use aghub_core::classify::{classify_agent, shared_with, skill_target_shares_with, AgentLinkPlan, AgentSkillCoverageView, LinkNeed, RosterEntry};

fn roster() -> Vec<RosterEntry> {
    vec![
        RosterEntry { id: "gemini".into(), referrer_dir: Some("/h/.gemini/skills".into()) },
        RosterEntry { id: "cline".into(), referrer_dir: Some("/h/.agents/skills".into()) },
        RosterEntry { id: "amp".into(), referrer_dir: Some("/h/.agents/skills".into()) },
        RosterEntry { id: "zed".into(), referrer_dir: None },
    ]
}

#[test]
fn agents_on_the_shared_slot_see_each_other() {
    assert_eq!(shared_with("cline", "/h/.agents/skills", &roster()), vec!["amp".to_string()]);
    assert!(shared_with("gemini", "/h/.gemini/skills", &roster()).is_empty());
}

#[test]
fn classification_and_its_coverage_view() {
    let plan = classify_agent("amp", Some("/h/.agents/skills"), true, &roster());
    assert_eq!(plan.need, LinkNeed::NeedsLink { referrer_dir: "/h/.agents/skills".into() });
    assert_eq!(plan.shared_with, vec!["cline".to_string()]);
    let view = AgentSkillCoverageView::from_plan(&plan, "global");
    assert_eq!(view.id, "amp");
    assert_eq!(view.scope, "global");
    assert!(view.needs_link && view.supported);
    assert_eq!(view.shared_with, vec!["cline".to_string()]);

    let plan = classify_agent("zed", None, false, &roster());
    assert_eq!(plan, AgentLinkPlan { agent_id: "zed".into(), need: LinkNeed::Unsupported, installed: false, shared_with: vec![] });
    let view = AgentSkillCoverageView::from_plan(&plan, "project");
    assert!(!view.needs_link && !view.supported);
}

#[test]
fn a_target_shares_with_the_other_readers_of_its_referrer_dir() {
    let roster = vec![
        RosterEntry { id: "codex".into(), referrer_dir: Some("/h/.agents/skills".into()) },
        RosterEntry { id: "gemini".into(), referrer_dir: Some("/h/.agents/skills".into()) },
        RosterEntry { id: "cursor".into(), referrer_dir: Some("/h/.cursor/skills".into()) },
    ];
    let need = LinkNeed::NeedsLink { referrer_dir: "/h/.agents/skills".into() };
    assert_eq!(skill_target_shares_with("codex", &need, &roster), vec!["gemini".to_string()]);
    assert!(skill_target_shares_with("codex", &LinkNeed::Unsupported, &roster).is_empty());
}
