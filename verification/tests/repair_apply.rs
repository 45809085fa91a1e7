use aghub_core::repair::{Comparison, RefuseReason, RepairOutcome};
use aghub_core::repair_run::{execute_repair, record_unlinks, ReferrerAction, RepairPlan, RepairWrite, SlotAction};

fn slot(path: &str, action: ReferrerAction, shared: bool, agents: &[&str]) -> SlotAction {
    SlotAction {
        path: path.to_string(),
        action,
        shared,
        agents: agents.iter().map(|a| a.to_string()).collect(),
    }
}

fn plan(actions: Vec<SlotAction>, adopts: Option<&str>) -> RepairPlan {
    RepairPlan {
        name: "demo".to_string(),
        master: "/h/.aghub/demo".to_string(),
        actions,
        refusal: None,
        adopts: adopts.map(|a| a.to_string()),
    }
}

fn s(v: &[&str]) -> Vec<String> {
    v.iter().map(|x| x.to_string()).collect()
}

#[test]
fn a_refused_plan_writes_nothing_and_says_what_to_do() {
    let mut p = plan(vec![slot("/h/.agents/skills/demo", ReferrerAction::Leave, true, &["a", "b"])], None);
    p.refusal = Some(("/h/.agents/skills/demo".to_string(), RefuseReason::ReferrerIsNotADir));
    let run = execute_repair(&p, &vec![], false, || "1-000000001".to_string());
    assert!(run.writes.is_empty());
    assert_eq!(run.report.fused, s(&["a", "b"]));
    assert_eq!(
        run.report.outcome,
        RepairOutcome::Refused {
            reason: "/h/.agents/skills/demo is neither a link nor a directory".to_string(),
            fix: "move /h/.agents/skills/demo aside yourself, then re-run `aghub skills repair demo`".to_string(),
        }
    );
}

#[test]
fn a_diverged_fork_is_refused_before_any_write() {
    let p = plan(
        vec![
            slot("/p/a/demo", ReferrerAction::CompareThenQuarantine, false, &[]),
            slot("/p/b/demo", ReferrerAction::CompareThenQuarantine, false, &[]),
            slot("/p/c/demo", ReferrerAction::Create, false, &[]),
        ],
        None,
    );
    let run = execute_repair(&p, &vec![Comparison::Equal, Comparison::Diverged], false, || "1-000000001".to_string());
    assert!(run.writes.is_empty());
    match run.report.outcome {
        RepairOutcome::Refused { reason, .. } => {
            assert_eq!(reason, "/p/b/demo holds content that differs from the master at /h/.aghub/demo")
        },
        other => panic!("expected a refusal, got {other:?}"),
    }
    let uncompared = execute_repair(&p, &vec![Comparison::Equal], true, || "1-000000001".to_string());
    assert!(matches!(uncompared.report.outcome, RepairOutcome::Refused { .. }));
}

#[test]
fn a_migration_copies_links_then_swaps_the_shared_slot_last() {
    let p = plan(
        vec![
            slot("/h/.agents/skills/demo", ReferrerAction::Leave, true, &["x", "y"]),
            slot("/h/.a/skills/demo", ReferrerAction::Create, false, &["a"]),
            slot("/h/.c/skills/demo", ReferrerAction::Unlink, false, &["c"]),
        ],
        Some("/h/.agents/skills/demo"),
    );
    let run = execute_repair(&p, &vec![], false, || "7-000000009".to_string());
    let q = "/h/.aghub/.quarantine/demo/7-000000009".to_string();
    assert_eq!(run.report.outcome, RepairOutcome::Migrated);
    assert_eq!(run.report.referrers, s(&["/h/.a/skills/demo", "/h/.agents/skills/demo"]));
    assert_eq!(run.report.quarantined, Some(q.clone()));
    assert!(run.report.unlinked.is_empty());
    assert_eq!(run.report.fused, s(&["x", "y"]));
    assert_eq!(
        run.writes,
        vec![
            RepairWrite::CopyMaster { from: "/h/.agents/skills/demo".into(), to: "/h/.aghub/demo".into() },
            RepairWrite::LinkReferrer { at: "/h/.a/skills/demo".into() },
            RepairWrite::SwapSlot { slot: "/h/.agents/skills/demo".into(), quarantine: q },
            RepairWrite::Unlink { at: "/h/.c/skills/demo".into() },
        ]
    );
}

#[test]
fn a_dry_run_reaches_the_verdict_and_writes_nothing() {
    let p = plan(
        vec![
            slot("/h/.b/skills/demo", ReferrerAction::Relink, false, &[]),
            slot("/h/.c/skills/demo", ReferrerAction::Unlink, false, &[]),
        ],
        None,
    );
    let run = execute_repair(&p, &vec![], true, || "1-000000001".to_string());
    assert!(run.writes.is_empty());
    assert_eq!(run.report.outcome, RepairOutcome::Relinked);
    assert_eq!(run.report.unlinked, s(&["/h/.c/skills/demo"]));
    assert!(run.report.dry_run);
}

#[test]
fn an_equal_fork_is_reconciled_and_only_real_detaches_are_reported() {
    let p = plan(vec![slot("/h/.agents/skills/demo", ReferrerAction::CompareThenQuarantine, true, &["x"])], None);
    let run = execute_repair(&p, &vec![Comparison::Equal], false, || "2-000000002".to_string());
    assert_eq!(run.report.outcome, RepairOutcome::Reconciled);
    let tidy = plan(vec![slot("/h/.c/skills/demo", ReferrerAction::Unlink, false, &[])], None);
    let run = execute_repair(&tidy, &vec![], false, || "2-000000002".to_string());
    assert_eq!(run.report.outcome, RepairOutcome::Conformant);
    let report = record_unlinks(run.report, &vec![]);
    assert_eq!(report.outcome, RepairOutcome::Conformant);
    let run = execute_repair(&tidy, &vec![], false, || "2-000000002".to_string());
    let report = record_unlinks(run.report, &s(&["/h/.c/skills/demo"]));
    assert_eq!(report.outcome, RepairOutcome::Tidied);
    assert_eq!(report.unlinked, s(&["/h/.c/skills/demo"]));
}

#[test]
fn each_swapped_fork_gets_its_own_quarantine_dir() {
    let p = plan(
        vec![
            slot("/p/a/demo", ReferrerAction::CompareThenQuarantine, false, &[]),
            slot("/p/b/demo", ReferrerAction::CompareThenQuarantine, false, &[]),
        ],
        None,
    );
    let next = std::cell::Cell::new(0u32);
    let run = execute_repair(&p, &vec![Comparison::Equal, Comparison::Equal], false, || {
        next.set(next.get() + 1);
        format!("5-00000000{}", next.get())
    });
    assert_eq!(
        run.writes,
        vec![
            RepairWrite::SwapSlot { slot: "/p/a/demo".into(), quarantine: "/h/.aghub/.quarantine/demo/5-000000001".into() },
            RepairWrite::SwapSlot { slot: "/p/b/demo".into(), quarantine: "/h/.aghub/.quarantine/demo/5-000000002".into() },
        ]
    );
    assert_eq!(run.report.quarantined.as_deref(), Some("/h/.aghub/.quarantine/demo/5-000000002"));
    assert_eq!(run.report.outcome, RepairOutcome::Reconciled);
}

#[test]
fn a_dry_run_reaches_the_same_verdict_and_writes_nothing() {
    // A hash-equal fork in the shared slot.
    let p = plan(vec![slot("/p/.agents/skills/demo", ReferrerAction::CompareThenQuarantine, true, &["x"])], None);
    let preview = execute_repair(&p, &vec![Comparison::Equal], true, || "3-000000003".to_string());
    assert_eq!(preview.report.outcome, RepairOutcome::Reconciled);
    assert!(preview.report.dry_run);
    assert!(preview.writes.is_empty(), "a dry run must not touch the slot");

    // And the commit agrees.
    let commit = execute_repair(&p, &vec![Comparison::Equal], false, || "3-000000003".to_string());
    assert_eq!(commit.report.outcome, preview.report.outcome);
    assert!(!commit.writes.is_empty());
}

#[test]
fn a_settled_plan_is_conformant_and_writes_nothing() {
    let p = plan(
        vec![
            slot("/p/.agents/skills/demo", ReferrerAction::Leave, true, &["a", "b"]),
            slot("/p/.codex/skills/demo", ReferrerAction::Leave, false, &[]),
        ],
        None,
    );
    for dry_run in [true, false] {
        let run = execute_repair(&p, &vec![], dry_run, || "4-000000004".to_string());
        assert_eq!(run.report.outcome, RepairOutcome::Conformant);
        assert!(run.writes.is_empty());
    }
}
