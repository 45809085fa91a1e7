use aghub_core::resync::{
    refuse_conflicting_copy, resync_step, ConflictObservation, InstalledCopy, MasterStore, ResyncAction,
    ResyncError, ResyncEvent, ResyncStage,
};

#[test]
fn a_clean_resync_commits_after_the_lock_stamp() {
    let mut stage = ResyncStage::Guard;
    let events = vec![
        ResyncEvent::Guard(Ok(())),
        ResyncEvent::Targets(1),
        ResyncEvent::Unchanged(Ok(())),
        ResyncEvent::Parsed(Ok("skill".into())),
        ResyncEvent::Audited(Ok(())),
        ResyncEvent::Hashed(Ok("h".into())),
        ResyncEvent::ConflictChecked(Ok(())),
        ResyncEvent::Contained(Ok(())),
        ResyncEvent::Prepared(Ok(())),
        ResyncEvent::Swapped(Ok(())),
    ];
    for e in events {
        let (next, action) = resync_step("skill", stage, e);
        assert!(matches!(action, ResyncAction::Continue), "{action:?}");
        stage = next;
    }
    let (next, action) = resync_step("skill", stage, ResyncEvent::LockUpdated(Ok(())));
    assert!(matches!(next, ResyncStage::Done));
    assert!(matches!(action, ResyncAction::Commit));
}

#[test]
fn nothing_installed_and_renamed_sources_are_refused() {
    let (_, a) = resync_step("skill", ResyncStage::Targets, ResyncEvent::Targets(0));
    assert!(matches!(a, ResyncAction::Fail(ResyncError::NotInstalled)));
    let (_, a) = resync_step("skill", ResyncStage::Parse, ResyncEvent::Parsed(Ok("renamed".into())));
    match a {
        ResyncAction::Fail(e) => {
            assert!(matches!(e, ResyncError::Renamed { ref new_name } if new_name == "renamed"));
            assert_eq!(e.message(), "source skill was renamed to 'renamed'");
        }
        other => panic!("{other:?}"),
    }
}

#[test]
fn a_failed_swap_rolls_back_before_failing() {
    let (stage, a) = resync_step("skill", ResyncStage::Swap, ResyncEvent::Swapped(Err("EXDEV".into())));
    assert!(matches!(a, ResyncAction::RollBack));
    let (_, a) = resync_step("skill", stage, ResyncEvent::RolledBack(Err("EBUSY".into())));
    match a {
        ResyncAction::Fail(e) => {
            assert!(matches!(e, ResyncError::Swap(ref m) if m == "EXDEV; rollback also failed: EBUSY"));
            assert_eq!(e.message(), "failed to replace installed skill: EXDEV; rollback also failed: EBUSY");
        }
        other => panic!("{other:?}"),
    }
}

#[test]
fn a_failed_lock_stamp_rolls_back_before_failing() {
    let (stage, a) = resync_step("skill", ResyncStage::LockUpdate, ResyncEvent::LockUpdated(Err("locked".into())));
    assert!(matches!(a, ResyncAction::RollBack));
    let (_, a) = resync_step("skill", stage, ResyncEvent::RolledBack(Ok(())));
    assert!(matches!(a, ResyncAction::Fail(ResyncError::LockUpdate(ref m)) if m == "locked"));
}

fn copy(root: &str, hash: &str) -> InstalledCopy {
    InstalledCopy { root: Ok(root.into()), hash: Ok(hash.into()) }
}

#[test]
fn a_differing_copy_beside_the_master_is_a_conflict() {
    let obs = ConflictObservation {
        store: MasterStore::Masters(vec!["/m/skill".into()]),
        master_hash: Ok("H".into()),
        copies: vec![copy("/m/skill", "X"), copy("/a/skill", "H"), copy("/b/skill", "Y")],
    };
    let err = refuse_conflicting_copy(&obs).unwrap_err();
    assert!(matches!(err, ResyncError::Conflict(ref m) if m == "skill has a different installed copy alongside its Master: /b/skill"));
}

#[test]
fn identical_copies_and_no_master_are_fine() {
    let obs = ConflictObservation {
        store: MasterStore::Masters(vec!["/m/skill".into()]),
        master_hash: Ok("H".into()),
        copies: vec![copy("/a/skill", "H")],
    };
    assert!(refuse_conflicting_copy(&obs).is_ok());
    let obs = ConflictObservation { store: MasterStore::Absent, master_hash: Err("x".into()), copies: vec![] };
    assert!(refuse_conflicting_copy(&obs).is_ok());
    let obs = ConflictObservation { store: MasterStore::Masters(vec![]), master_hash: Err("x".into()), copies: vec![] };
    assert!(refuse_conflicting_copy(&obs).is_ok());
}

#[test]
fn unreadable_state_and_two_masters_are_refused() {
    let obs = ConflictObservation {
        store: MasterStore::Masters(vec!["/m/a".into(), "/m/b".into()]),
        master_hash: Ok("H".into()),
        copies: vec![],
    };
    assert!(matches!(refuse_conflicting_copy(&obs), Err(ResyncError::Conflict(ref m)) if m == "skill has multiple Master copies in its store"));
    let obs = ConflictObservation { store: MasterStore::StoreUnresolvable("EACCES".into()), master_hash: Ok("H".into()), copies: vec![] };
    assert!(matches!(refuse_conflicting_copy(&obs), Err(ResyncError::Hash(ref m)) if m == "failed to resolve Master store: EACCES"));
    let obs = ConflictObservation {
        store: MasterStore::Masters(vec!["/m/skill".into()]),
        master_hash: Ok("H".into()),
        copies: vec![InstalledCopy { root: Ok("/a/skill".into()), hash: Err("EIO".into()) }],
    };
    assert!(matches!(refuse_conflicting_copy(&obs), Err(ResyncError::Hash(ref m)) if m == "failed to hash installed copy /a/skill: EIO"));
}
