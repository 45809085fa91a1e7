use aghub_core::manager::{skill_removal_verdict, ConfigError, SkillRemovalVerdict};
use aghub_core::removal::{Layout, ReadEffect, RemovalPlan};

fn plan(paths: &[&str], skipped: &[&str], needs_confirm: bool) -> RemovalPlan {
    RemovalPlan {
        layout: Layout::Symlink,
        paths: paths.iter().map(|p| p.to_string()).collect(),
        skipped: skipped.iter().map(|p| p.to_string()).collect(),
        needs_confirm,
        shared_master_kept: false,
    }
}

fn strs(v: &[&str]) -> Vec<String> {
    v.iter().map(|s| s.to_string()).collect()
}

#[test]
fn a_removal_that_leaves_the_skill_readable_is_refused() {
    let effect = ReadEffect { survivors: strs(&["/m/s"]), changed: false };
    let v = skill_removal_verdict(plan(&["/a/s"], &[], false), &effect, &strs(&["/m/s"]), &vec![], false, false, false, true, "Gemini");
    match v {
        SkillRemovalVerdict::Refuse(ConfigError::UnsupportedOperation { operation, resource, agent }) => {
            assert_eq!(operation, "remove for this agent alone");
            assert_eq!(resource, "skill it reads from the shared master; it is still served to this agent from: /m/s");
            assert_eq!(agent, "Gemini");
        }
        other => panic!("{other:?}"),
    }
}

#[test]
fn the_same_removal_previews_as_kept() {
    let effect = ReadEffect { survivors: strs(&["/m/s"]), changed: false };
    let v = skill_removal_verdict(plan(&["/a/s"], &[], false), &effect, &strs(&["/m/s"]), &vec![], false, false, true, false, "Gemini");
    match v {
        SkillRemovalVerdict::Preview { plan, blocks, still_read_from } => {
            assert!(blocks);
            assert!(plan.shared_master_kept);
            assert_eq!(still_read_from, strs(&["/m/s"]));
        }
        other => panic!("{other:?}"),
    }
}

#[test]
fn taking_a_private_copy_away_commits_and_says_what_still_serves_it() {
    let effect = ReadEffect { survivors: strs(&["/m/s"]), changed: true };
    let v = skill_removal_verdict(plan(&["/a/s"], &[], false), &effect, &strs(&["/m/s"]), &vec![], false, false, false, false, "Gemini");
    match v {
        SkillRemovalVerdict::Commit { plan, still_read_from } => {
            assert_eq!(plan.skipped, strs(&["/m/s"]));
            assert!(!plan.shared_master_kept);
            assert!(still_read_from.is_empty());
        }
        other => panic!("{other:?}"),
    }
}

#[test]
fn an_all_agents_removal_with_a_survivor_is_refused() {
    let effect = ReadEffect { survivors: strs(&["/x/s", "/y/s"]), changed: true };
    let v = skill_removal_verdict(plan(&["/a/s"], &["/z/s"], true), &effect, &strs(&["/x/s", "/y/s"]), &strs(&["/z/s"]), false, true, false, true, "Gemini");
    match v {
        SkillRemovalVerdict::Refuse(ConfigError::UnsupportedOperation { operation, resource, .. }) => {
            assert_eq!(operation, "remove from every agent");
            assert_eq!(resource, "skill still discoverable afterwards in: /x/s, /y/s, /z/s");
        }
        other => panic!("{other:?}"),
    }
}

#[test]
fn a_planner_that_spared_everything_only_previews() {
    let effect = ReadEffect { survivors: strs(&["/a/s"]), changed: false };
    let v = skill_removal_verdict(plan(&[], &["/a/s"], false), &effect, &strs(&["/r/a/s"]), &strs(&["/r/a/s"]), false, false, false, true, "Gemini");
    match v {
        SkillRemovalVerdict::Preview { plan, blocks, .. } => {
            assert!(blocks);
            assert!(plan.shared_master_kept);
        }
        other => panic!("{other:?}"),
    }
}

#[test]
fn an_unconfirmed_destructive_plan_is_previewed_and_a_confirmed_one_committed() {
    let effect = ReadEffect { survivors: vec![], changed: true };
    let v = skill_removal_verdict(plan(&["/m/s"], &[], true), &effect, &vec![], &vec![], false, true, false, false, "Gemini");
    assert!(matches!(v, SkillRemovalVerdict::Preview { blocks: false, .. }));
    let v = skill_removal_verdict(plan(&["/m/s"], &[], true), &effect, &vec![], &vec![], false, true, false, true, "Gemini");
    assert!(matches!(v, SkillRemovalVerdict::Commit { .. }));
    let v = skill_removal_verdict(plan(&["/m/s"], &[], true), &effect, &vec![], &vec![], true, true, false, true, "Gemini");
    assert!(
        matches!(v, SkillRemovalVerdict::Refuse(ConfigError::UnsupportedOperation { ref resource, .. }) if resource == "skill still discoverable afterwards in: "),
        "an all-agents removal cannot promise anything over a dir it could not list"
    );
    let v = skill_removal_verdict(plan(&["/m/s"], &[], false), &effect, &vec![], &vec![], true, false, false, true, "Gemini");
    assert!(matches!(v, SkillRemovalVerdict::Commit { .. }), "a single-agent removal ignores an unlistable dir");
}
