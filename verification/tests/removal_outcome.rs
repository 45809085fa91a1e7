use aghub_core::models::ResourceScope;
use aghub_core::paths::{skill_source_root, universal_canonical_dir};
use aghub_core::prune::{PruneError, PruneScope};
use aghub_core::removal::{
    assert_targets_strictly_contained, universal_master_roots, Layout, PermissionDenied, PruneStatus, RemovalOutcome,
    RemovalPlan, RemovalReport, TargetObservation,
};

#[test]
fn prune_status_default_is_not_run() {
    assert_eq!(PruneStatus::default(), PruneStatus::NotRun);
}

#[test]
fn removal_outcome_carries_prune_field() {
    let outcome = RemovalOutcome {
        plan: RemovalPlan {
            layout: Layout::Copy,
            paths: vec![],
            skipped: vec![],
            needs_confirm: false,
            shared_master_kept: false,
        },
        executed: false,
        prune: PruneStatus::Pruned(vec!["a".to_string()]),
        failed_paths: vec![],
        absent: false,
    };
    assert_eq!(outcome.prune, PruneStatus::Pruned(vec!["a".to_string()]));
}

#[test]
fn noop_is_idempotent_delete_success_shape() {
    let n = RemovalOutcome::noop();
    assert!(!n.executed, "a no-op delete must not report execution");
    assert!(n.absent);
    assert!(n.plan.paths.is_empty(), "no-op deletes nothing");
    assert!(n.plan.skipped.is_empty());
    assert!(!n.plan.needs_confirm);
    assert_eq!(n.prune, PruneStatus::NotRun);
}

#[test]
fn both_store_spellings_are_listed() {
    let roots = universal_master_roots(Some("/p"));
    assert!(roots.iter().any(|r| r.ends_with(".agents/skills")));
    assert!(roots.iter().any(|r| r.ends_with("agents/skills") && !r.ends_with(".agents/skills")));
}

#[test]
fn skill_source_root_resolves_skill_md_to_parent() {
    assert_eq!(skill_source_root("/tmp/some-skill/SKILL.md"), "/tmp/some-skill");
}

#[test]
fn skill_source_root_passes_through_directory() {
    assert_eq!(skill_source_root("/tmp/some-skill"), "/tmp/some-skill");
}

#[test]
fn universal_canonical_dir_resolves_by_scope() {
    assert_eq!(universal_canonical_dir(Some("/tmp/proj")), Some("/tmp/proj/.agents/skills".to_string()));
    if let Some(home) = dirs::home_dir() {
        let expected = home.join(".agents/skills").to_string_lossy().into_owned();
        assert_eq!(universal_canonical_dir(None), Some(expected));
    }
}

fn executed_plan() -> RemovalPlan {
    RemovalPlan {
        layout: Layout::Copy,
        paths: vec!["/p/.agents/skills/s".to_string()],
        skipped: vec![],
        needs_confirm: true,
        shared_master_kept: false,
    }
}

#[test]
fn an_executed_removal_prunes_its_own_scope_afterwards() {
    let report = RemovalReport { removed: vec!["/p/.agents/skills/s".to_string()], skipped: vec![], failed: vec![] };
    let calls = std::cell::RefCell::new(Vec::new());
    let prune = |scope: PruneScope, root: Option<String>| {
        calls.borrow_mut().push((scope, root.clone()));
        match scope {
            PruneScope::Global => Ok(vec!["s".to_string()]),
            PruneScope::Project => Ok(vec!["t".to_string()]),
        }
    };
    let out = RemovalOutcome::commit_pruned(executed_plan(), report, ResourceScope::ProjectOnly, Some("/p"), &prune);
    assert!(out.executed);
    assert_eq!(out.plan.paths, vec!["/p/.agents/skills/s".to_string()]);
    assert_eq!(out.prune, PruneStatus::Pruned(vec!["t".to_string()]));
    assert_eq!(*calls.borrow(), vec![(PruneScope::Project, Some("/p".to_string()))]);
}

#[test]
fn a_project_removal_without_a_root_prunes_nothing() {
    let report = RemovalReport { removed: vec![], skipped: vec![], failed: vec![] };
    let prune = |_: PruneScope, _: Option<String>| -> Result<Vec<String>, PruneError> { panic!("no lock is touched") };
    let out = RemovalOutcome::commit_pruned(executed_plan(), report, ResourceScope::ProjectOnly, None, prune);
    assert!(out.executed);
    assert_eq!(out.prune, PruneStatus::NotRun);
}

#[test]
fn a_root_itself_is_refused_as_permission_denied() {
    let roots = vec!["/p/.agents/skills".to_string()];
    let obs = |target: &str, exists: bool| TargetObservation {
        target: target.to_string(),
        canonical: if exists { Some(target.to_string()) } else { None },
        exists,
        parent_canonical: Some("/p/.agents/skills".to_string()),
    };
    assert_eq!(assert_targets_strictly_contained(&vec![obs("/p/.agents/skills/a", true)], &roots), Ok(()));
    assert_eq!(assert_targets_strictly_contained(&vec![obs("/p/.agents/skills/gone", false)], &roots), Ok(()));
    let refused = assert_targets_strictly_contained(
        &vec![obs("/p/.agents/skills/a", true), obs("/p/.agents/skills", true)],
        &roots,
    );
    assert_eq!(
        refused,
        Err(PermissionDenied {
            message: "target is not a skill directory under allowed skill roots: /p/.agents/skills".to_string()
        })
    );
}
