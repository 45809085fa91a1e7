use aghub_core::models::{LocalSkillLockEntry, Locks, ResourceScope, SkillLockEntry};
use aghub_core::prune::{
    collect_disk_dir_names, combine_prune, locked_keys, preview_prune_for_removal, preview_prune_from_dirs, prune_lock,
    prune_lock_for_scope, prune_lock_from_dirs, prune_status, DirScan, PruneError, PruneScope, ScanError,
    ScopeObservation,
};
use aghub_core::removal::PruneStatus;
use aghub_core::table::LockTable;

fn global_entry() -> SkillLockEntry {
    SkillLockEntry {
        source: "o/r".to_string(),
        source_type: "github".to_string(),
        source_url: "https://github.com/o/r".to_string(),
        ref_name: None,
        skill_path: None,
        skill_folder_hash: "h".to_string(),
        content_hash: None,
        ref_commit: None,
        installed_at: "t".to_string(),
        updated_at: "t".to_string(),
        plugin_name: None,
    }
}

fn local_entry() -> LocalSkillLockEntry {
    LocalSkillLockEntry {
        source_url: None,
        ref_commit: None,
        source: "o/r".to_string(),
        ref_name: None,
        source_type: "github".to_string(),
        computed_hash: "h".to_string(),
        skill_path: None,
    }
}

fn empty_locks() -> Locks {
    Locks { global: LockTable::new(), project: LockTable::new() }
}

fn names(items: &[&str]) -> Vec<String> {
    items.iter().map(|s| s.to_string()).collect()
}

fn found(dir: &str, entries: &[&str]) -> DirScan {
    DirScan {
        dir: dir.to_string(),
        exists: Some(true),
        found: Ok(entries.iter().map(|e| format!("{dir}/{e}")).collect()),
    }
}

#[test]
fn combine_prune_both_success_concatenates_keys() {
    let out = combine_prune(Ok(vec!["g1".into()]), Some(|| Ok(vec!["p1".into()])));
    assert_eq!(out, PruneStatus::Pruned(vec!["g1".into(), "p1".into()]));
}

#[test]
fn combine_prune_project_failure_after_global_success_reports_partial() {
    let out = combine_prune(Ok(vec!["g1".into()]), Some(|| Err(PruneError::MissingProjectRoot)));
    match out {
        PruneStatus::Failed { reason, pruned } => {
            assert!(!reason.is_empty());
            assert_eq!(pruned, vec!["g1".to_string()], "global keys pruned before project failure must be reported");
        }
        other => panic!("expected Failed with partial pruned, got {other:?}"),
    }
}

#[test]
fn combine_prune_global_failure_short_circuits_with_empty_pruned() {
    let mut project_ran = false;
    let out = combine_prune(
        Err(PruneError::MissingProjectRoot),
        Some(|| {
            project_ran = true;
            Ok(vec![])
        }),
    );
    assert!(!project_ran, "global failure must short-circuit before the project prune");
    assert_eq!(
        out,
        PruneStatus::Failed { reason: PruneError::MissingProjectRoot.message(), pruned: Vec::new() }
    );
}

#[test]
fn prune_status_failure_reports_empty_pruned() {
    let out = prune_status(Err(PruneError::MissingProjectRoot));
    assert_eq!(
        out,
        PruneStatus::Failed { reason: PruneError::MissingProjectRoot.message(), pruned: Vec::new() }
    );
}

#[test]
fn prune_lock_for_scope_project_without_root_is_not_run() {
    let out = prune_lock_for_scope(ResourceScope::ProjectOnly, None, |_s: PruneScope, _r: Option<String>| {
        panic!("no prune may run without a project root")
    });
    assert_eq!(out, PruneStatus::NotRun);
}

#[test]
fn prune_lock_for_scope_both_without_root_prunes_global_only() {
    let out = prune_lock_for_scope(ResourceScope::Both, None, |s: PruneScope, r: Option<String>| {
        assert_eq!(s, PruneScope::Global);
        assert!(r.is_none());
        Ok(vec!["orphan-global".to_string()])
    });
    assert_eq!(out, PruneStatus::Pruned(vec!["orphan-global".to_string()]));
}

#[test]
fn prune_lock_for_scope_both_runs_project_with_its_root() {
    let out = prune_lock_for_scope(ResourceScope::Both, Some("/proj"), |s: PruneScope, r: Option<String>| match s {
        PruneScope::Global => Ok(vec!["g".to_string()]),
        PruneScope::Project => {
            assert_eq!(r.as_deref(), Some("/proj"));
            Ok(vec!["p".to_string()])
        }
    });
    assert_eq!(out, PruneStatus::Pruned(vec!["g".to_string(), "p".to_string()]));
}

#[test]
fn prune_lock_global_drops_orphan_keeps_present() {
    let mut locks = empty_locks();
    locks.global.insert("keep".to_string(), global_entry());
    locks.global.insert("gone".to_string(), global_entry());
    let pruned = prune_lock(PruneScope::Global, &names(&["keep"]), None, &mut locks).unwrap();
    assert_eq!(pruned, vec!["gone".to_string()]);
    assert!(locks.global.contains_key("keep"));
    assert!(!locks.global.contains_key("gone"));
}

#[test]
fn prune_lock_lock_independent_orphan_on_disk_keeps_entry() {
    let mut locks = empty_locks();
    locks.global.insert("x".to_string(), global_entry());
    let pruned = prune_lock(PruneScope::Global, &names(&["x"]), None, &mut locks).unwrap();
    assert!(pruned.is_empty());
    assert!(locks.global.contains_key("x"));
}

#[test]
fn prune_lock_global_keeps_npx_unicode_sanitized_folder() {
    let mut locks = empty_locks();
    locks.global.insert("İstanbul".to_string(), global_entry());
    let pruned = prune_lock(PruneScope::Global, &names(&["i-stanbul"]), None, &mut locks).unwrap();
    assert!(pruned.is_empty());
    assert!(locks.global.contains_key("İstanbul"));
}

#[test]
fn prune_lock_project_requires_project_root() {
    let mut locks = empty_locks();
    let err = prune_lock(PruneScope::Project, &names(&[]), None, &mut locks);
    assert!(matches!(err, Err(PruneError::MissingProjectRoot)));
}

#[test]
fn prune_lock_global_never_touches_project_lock() {
    let mut locks = empty_locks();
    locks.project.insert("proj-only".to_string(), local_entry());
    prune_lock(PruneScope::Global, &names(&[]), None, &mut locks).unwrap();
    assert!(locks.project.contains_key("proj-only"));
}

#[test]
fn prune_lock_project_prunes_local_lock_only() {
    let mut locks = empty_locks();
    locks.global.insert("global-keep".to_string(), global_entry());
    locks.project.insert("proj-gone".to_string(), local_entry());
    let pruned = prune_lock(PruneScope::Project, &names(&[]), Some("/project"), &mut locks).unwrap();
    assert_eq!(pruned, vec!["proj-gone".to_string()]);
    assert!(locks.project.key_list().is_empty());
    assert!(locks.global.contains_key("global-keep"));
}

#[test]
fn collect_disk_dir_names_returns_folder_basenames() {
    let got = collect_disk_dir_names(&vec![found("/root/skills", &["alpha", "beta"])]).unwrap();
    assert!(got.contains(&"alpha".to_string()));
    assert!(got.contains(&"beta".to_string()));
}

#[test]
fn collect_disk_dir_names_skips_nonexistent_dirs() {
    let missing = DirScan { dir: "/root/nope".to_string(), exists: Some(false), found: Ok(vec![]) };
    let got = collect_disk_dir_names(&vec![missing]).unwrap();
    assert!(got.is_empty());
}

#[test]
fn collect_disk_dir_names_aborts_on_inaccessible_dir() {
    let inaccessible = DirScan { dir: "/root/not-a-dir/subdir".to_string(), exists: None, found: Ok(vec![]) };
    let res = collect_disk_dir_names(&vec![inaccessible]);
    assert!(matches!(res, Err(ScanError::PermissionDenied(_))), "inaccessible dir must abort the scan, got {res:?}");
}

#[test]
fn collect_disk_dir_names_lists_each_name_once() {
    let got = collect_disk_dir_names(&vec![found("/a", &["alpha"]), found("/b", &["alpha", "beta"])]).unwrap();
    assert_eq!(got, vec!["alpha".to_string(), "beta".to_string()]);
}

#[test]
fn prune_lock_from_dirs_prunes_when_scan_succeeds() {
    let mut locks = empty_locks();
    locks.global.insert("present".to_string(), global_entry());
    locks.global.insert("orphan".to_string(), global_entry());
    let scans = vec![DirScan { dir: "/d".to_string(), exists: Some(true), found: Ok(vec!["present".to_string()]) }];
    let pruned = prune_lock_from_dirs(PruneScope::Global, &scans, None, Ok(()), &mut locks).unwrap();
    assert_eq!(pruned, vec!["orphan".to_string()]);
    assert!(locks.global.contains_key("present"));
    assert!(!locks.global.contains_key("orphan"));
}

#[test]
fn prune_lock_from_dirs_aborts_on_scan_error_lock_unchanged() {
    let mut locks = empty_locks();
    locks.global.insert("gone".to_string(), global_entry());
    let scans =
        vec![DirScan { dir: "/d".to_string(), exists: Some(true), found: Err(ScanError::PermissionDenied("/d".to_string())) }];
    let res = prune_lock_from_dirs(PruneScope::Global, &scans, None, Ok(()), &mut locks);
    assert!(matches!(res, Err(PruneError::Scan(_))));
    assert!(locks.global.contains_key("gone"));
}

#[test]
fn prune_does_not_wipe_lock_when_a_scope_dir_is_inaccessible() {
    let mut locks = empty_locks();
    locks.global.insert("keep".to_string(), global_entry());
    let scans = vec![DirScan { dir: "/x/not-a-dir/subdir".to_string(), exists: None, found: Ok(vec![]) }];
    let res = prune_lock_from_dirs(PruneScope::Global, &scans, None, Ok(()), &mut locks);
    assert!(matches!(res, Err(PruneError::Scan(_))));
    assert!(locks.global.contains_key("keep"));
}

#[test]
fn prune_lock_from_dirs_refuses_when_the_mutation_lock_is_busy() {
    let mut locks = empty_locks();
    locks.global.insert("gone".to_string(), global_entry());
    let res = prune_lock_from_dirs(PruneScope::Global, &vec![], None, Err("busy".to_string()), &mut locks);
    assert!(matches!(res, Err(PruneError::Locked(ref m)) if m == "busy"));
    assert!(locks.global.contains_key("gone"));
}

#[test]
fn preview_prune_reports_orphans_without_mutating_lock() {
    let keys = names(&["present", "orphan"]);
    let scans = vec![DirScan { dir: "/d".to_string(), exists: Some(true), found: Ok(vec!["present".to_string()]) }];
    let would = preview_prune_from_dirs(PruneScope::Global, &scans, None, Some(&keys)).unwrap();
    assert_eq!(would, vec!["orphan".to_string()]);
}

#[test]
fn preview_prune_refuses_an_unreadable_lock() {
    let res = preview_prune_from_dirs(PruneScope::Project, &vec![], Some("/p"), None);
    match res {
        Err(e @ PruneError::UnreadableLock(_)) => {
            assert_eq!(
                e.message(),
                "the skill lock could not be read, so no prune can be planned: skills-lock.json; resolve it (unresolved merge conflict?) and retry"
            );
        }
        other => panic!("expected UnreadableLock, got {other:?}"),
    }
}

#[test]
fn preview_for_removal_leaves_the_removed_paths_out() {
    let global = ScopeObservation {
        keys: Some(names(&["target", "other", "kept"])),
        scans: vec![found("/g", &["target", "kept"])],
    };
    let project = ScopeObservation { keys: None, scans: vec![] };
    let out = preview_prune_for_removal(ResourceScope::GlobalOnly, None, &names(&["/g/target"]), &global, &project);
    assert_eq!(out, PruneStatus::WouldPrune(names(&["target", "other"])));
}

#[test]
fn preview_for_removal_with_half_a_picture_promises_nothing() {
    let global = ScopeObservation { keys: Some(names(&["a"])), scans: vec![] };
    let project = ScopeObservation { keys: None, scans: vec![] };
    let out = preview_prune_for_removal(ResourceScope::Both, Some("/p"), &vec![], &global, &project);
    assert_eq!(out, PruneStatus::NotRun);
    let out = preview_prune_for_removal(ResourceScope::ProjectOnly, None, &vec![], &global, &project);
    assert_eq!(out, PruneStatus::NotRun);
}

#[test]
fn scan_and_prune_error_messages() {
    assert_eq!(
        PruneError::Scan(ScanError::PathNotFound("/x".into())).message(),
        "disk scan failed, no pruning performed: path not found: /x"
    );
    assert_eq!(PruneError::MissingProjectRoot.message(), "project prune requires a project root");
    assert_eq!(PruneError::Io("disk full".into()).message(), "failed to write lock: disk full");
}

#[test]
fn a_preview_lists_exactly_what_the_prune_then_drops() {
    let mut locks = empty_locks();
    for k in ["zeta", "alpha", "kept", "beta"] {
        locks.project.insert(k.to_string(), local_entry());
    }
    let scans = vec![found("/p/.agents/skills", &["kept"]), found("/p/.other/skills", &["alpha"])];
    let keys = locked_keys(PruneScope::Project, &locks);
    let would = preview_prune_from_dirs(PruneScope::Project, &scans, Some("/p"), Some(&keys)).unwrap();
    let dropped = prune_lock_from_dirs(PruneScope::Project, &scans, Some("/p"), Ok(()), &mut locks).unwrap();
    assert_eq!(would, dropped);
    assert_eq!(dropped, names(&["zeta", "beta"]));
}

#[test]
fn prune_lock_drops_a_key_whose_raw_spelling_alone_has_a_folder() {
    let mut locks = empty_locks();
    locks.global.insert("My Skill".to_string(), global_entry());
    locks.global.insert("other".to_string(), global_entry());
    let pruned = prune_lock(PruneScope::Global, &names(&["My Skill", "other"]), None, &mut locks).unwrap();
    assert_eq!(pruned, vec!["My Skill".to_string()]);
    assert!(!locks.global.contains_key("My Skill"));
    assert!(locks.global.contains_key("other"));
}
