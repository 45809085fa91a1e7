use aghub_core::manager::ConfigError;
use aghub_core::models::ResourceScope;
use aghub_core::repair::{
    compare_hashes, describe, failed_report, fix_for, fork_refusal, repair_all, repair_worklist, Comparison,
    RefuseReason, RepairOutcome, RepairReport,
};

fn report(name: &str, outcome: RepairOutcome) -> RepairReport {
    RepairReport {
        name: name.to_string(),
        outcome,
        master: format!("/store/{name}"),
        referrers: Vec::new(),
        unlinked: Vec::new(),
        quarantined: None,
        fused: Vec::new(),
        dry_run: false,
    }
}

fn keys(v: &[&str]) -> Vec<String> {
    v.iter().map(|s| s.to_string()).collect()
}

#[test]
fn refusals_describe_the_slot_they_are_about() {
    assert_eq!(
        describe(&RefuseReason::AliasedMaster, "/a/demo"),
        "/a/demo IS the master, reached through a symlinked parent"
    );
    assert_eq!(
        describe(&RefuseReason::ReferrerIsNotADir, "/a/demo"),
        "/a/demo is neither a link nor a directory"
    );
    assert_eq!(
        describe(&RefuseReason::UnreadableCompatDir { path: "/c/skills".to_string() }, "/a/demo"),
        "/c/skills could not be read, so it is undecided whether it is safe to detach"
    );
    assert_eq!(
        describe(&RefuseReason::MasterMissing, "/a/demo"),
        "there is no master and nothing that may be adopted as one"
    );
}

#[test]
fn every_refusal_names_its_next_step() {
    assert_eq!(
        fix_for(&RefuseReason::MasterIsLink, "/a/demo", "demo"),
        "replace the store entry with a real directory, then re-run `aghub skills repair demo`"
    );
    assert_eq!(
        fix_for(&RefuseReason::MasterIsNotADir, "/a/demo", "demo"),
        fix_for(&RefuseReason::MasterIsLink, "/x", "demo")
    );
    assert_eq!(
        fix_for(&RefuseReason::ReferrerIsNotADir, "/a/demo", "demo"),
        "move /a/demo aside yourself, then re-run `aghub skills repair demo`"
    );
    assert!(fix_for(&RefuseReason::MasterMissing, "/a/demo", "demo").ends_with("delete the dead referrer at /a/demo"));
    assert!(fix_for(&RefuseReason::AliasedMaster, "/a/demo", "demo").starts_with("a parent of /a/demo is a symlink"));
    let unreadable = fix_for(&RefuseReason::UnreadableCompatDir { path: "/c".to_string() }, "/a", "demo");
    assert!(unreadable.starts_with("fix the permission on /c (or one of its parent directories)"));
    assert!(unreadable.ends_with("re-run `aghub skills repair demo`"));
}

#[test]
fn a_hash_error_is_never_evidence_of_sameness() {
    assert_eq!(compare_hashes(Ok("h".to_string()), Ok("h".to_string())), Comparison::Equal);
    assert_eq!(compare_hashes(Ok("h".to_string()), Ok("g".to_string())), Comparison::Diverged);
    assert_eq!(
        compare_hashes(Err("fork unreadable".to_string()), Err("master unreadable".to_string())),
        Comparison::Undecidable("fork unreadable".to_string())
    );
    assert_eq!(
        compare_hashes(Ok("h".to_string()), Err("master unreadable".to_string())),
        Comparison::Undecidable("master unreadable".to_string())
    );
}

#[test]
fn a_diverged_or_unhashable_fork_refuses_and_an_equal_one_does_not() {
    assert_eq!(fork_refusal("/f", "/m", "demo", &Comparison::Equal), None);
    assert_eq!(
        fork_refusal("/f", "/m", "demo", &Comparison::Diverged),
        Some(RepairOutcome::Refused {
            reason: "/f holds content that differs from the master at /m".to_string(),
            fix: "compare them, then keep the one you want: `diff -r /f /m`. Move the copy you do not want aside and re-run `aghub skills repair demo`".to_string(),
        })
    );
    assert_eq!(
        fork_refusal("/f", "/m", "demo", &Comparison::Undecidable("denied".to_string())),
        Some(RepairOutcome::Refused {
            reason: "cannot hash /f to compare it with the master: denied".to_string(),
            fix: "make it readable, or move it aside yourself (`mv /f /f.bak`) and re-run `aghub skills repair demo`"
                .to_string(),
        })
    );
}

#[test]
fn a_failed_row_names_no_path() {
    let row = failed_report("demo", true, "permission denied".to_string());
    assert_eq!(row.name, "demo");
    assert_eq!(row.master, "");
    assert!(row.referrers.is_empty() && row.unlinked.is_empty() && row.fused.is_empty());
    assert_eq!(row.quarantined, None);
    assert!(row.dry_run);
    match row.outcome {
        RepairOutcome::Failed { reason, fix } => {
            assert_eq!(reason, "permission denied");
            assert!(fix.contains("re-run `aghub skills repair demo`"));
        },
        other => panic!("unexpected outcome {other:?}"),
    }
}

#[test]
fn the_worklist_is_sorted_deduplicated_and_scoped() {
    let global = keys(&["zeta", "alpha", "zeta"]);
    let project = keys(&["beta", "alpha"]);
    assert_eq!(repair_worklist(ResourceScope::GlobalOnly, false, &global, &project), keys(&["alpha", "zeta"]));
    assert_eq!(
        repair_worklist(ResourceScope::GlobalOnly, true, &global, &project),
        keys(&["alpha", "beta", "zeta"])
    );
    assert_eq!(repair_worklist(ResourceScope::ProjectOnly, true, &global, &project), keys(&["alpha", "beta"]));
    assert!(repair_worklist(ResourceScope::ProjectOnly, false, &global, &project).is_empty());
}

#[test]
fn a_refused_guard_or_an_unreadable_lock_fails_closed() {
    let never = |_: &str, _: bool| -> Result<Option<RepairReport>, String> { panic!("no repair may run") };
    assert_eq!(
        repair_all(ResourceScope::GlobalOnly, None, None, false, Err("busy".to_string()), Ok(vec![]), Ok(vec![]), never)
            .unwrap_err(),
        ConfigError::Io("acquire the mutation lock: busy".to_string())
    );
    assert_eq!(
        repair_all(ResourceScope::GlobalOnly, None, None, true, Err("busy".to_string()), Err("bad".to_string()), Ok(vec![]), never)
            .unwrap_err(),
        ConfigError::Io("read the global skill lock: bad".to_string())
    );
    assert_eq!(
        repair_all(ResourceScope::ProjectOnly, Some("/p"), None, false, Ok(()), Err("ignored".to_string()), Err("bad".to_string()), never)
            .unwrap_err(),
        ConfigError::Io("read the project skill lock: bad".to_string())
    );
}

#[test]
fn one_failing_skill_becomes_a_row_and_conformant_ones_stay_quiet() {
    let repair = |name: &str, locked: bool| -> Result<Option<RepairReport>, String> {
        assert!(locked);
        match name {
            "alpha" => Ok(Some(report("alpha", RepairOutcome::Conformant))),
            "beta" => Err("EACCES".to_string()),
            _ => Ok(Some(report(name, RepairOutcome::Migrated))),
        }
    };
    let rows = repair_all(
        ResourceScope::GlobalOnly,
        None,
        None,
        false,
        Ok(()),
        Ok(keys(&["gamma", "beta", "alpha"])),
        Ok(vec![]),
        repair,
    )
    .unwrap();
    let names: Vec<&str> = rows.iter().map(|r| r.name.as_str()).collect();
    assert_eq!(names, vec!["beta", "gamma"]);
    assert!(matches!(rows[0].outcome, RepairOutcome::Failed { .. }));
    assert_eq!(rows[1].outcome, RepairOutcome::Migrated);
}

#[test]
fn a_named_skill_reports_even_when_conformant_and_unlocked() {
    let repair = |name: &str, locked: bool| -> Result<Option<RepairReport>, String> {
        assert_eq!(name, "solo");
        assert!(!locked);
        Ok(Some(report(name, RepairOutcome::Conformant)))
    };
    let rows =
        repair_all(ResourceScope::GlobalOnly, None, Some("solo"), true, Err("unused".to_string()), Ok(keys(&["other"])), Ok(vec![]), repair)
            .unwrap();
    assert_eq!(rows.len(), 1);
    assert_eq!(rows[0].outcome, RepairOutcome::Conformant);
}

#[test]
fn a_scope_with_no_single_store_reports_nothing() {
    let repair = |_: &str, _: bool| -> Result<Option<RepairReport>, String> { Ok(None) };
    let rows = repair_all(ResourceScope::Both, Some("/p"), None, false, Ok(()), Ok(vec![]), Ok(keys(&["a", "b"])), repair)
        .unwrap();
    assert!(rows.is_empty());
}

#[test]
fn a_second_bulk_run_reports_nothing_left_to_do() {
    // The first run migrated both; the second finds each conformant.
    let first = |n: &str, _: bool| -> Result<Option<RepairReport>, String> { Ok(Some(report(n, RepairOutcome::Migrated))) };
    let rows = repair_all(ResourceScope::ProjectOnly, Some("/p"), None, false, Ok(()), Ok(vec![]), Ok(keys(&["alpha", "beta"])), first)
        .unwrap();
    assert_eq!(rows.len(), 2);
    let second = |n: &str, _: bool| -> Result<Option<RepairReport>, String> { Ok(Some(report(n, RepairOutcome::Conformant))) };
    let rows = repair_all(ResourceScope::ProjectOnly, Some("/p"), None, false, Ok(()), Ok(vec![]), Ok(keys(&["alpha", "beta"])), second)
        .unwrap();
    assert!(rows.is_empty());
}
