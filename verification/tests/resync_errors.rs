use aghub_core::resync::{resync_error_code, resync_step, ResyncAction, ResyncError, ResyncEvent, ResyncStage};

#[test]
fn every_resync_error_has_its_published_code() {
    let cases = [
        (ResyncError::Locked("x".into()), "SKILL_MUTATION_LOCK_BUSY"),
        (ResyncError::StaleFetch("x".into()), "SKILL_SOURCE_CHANGED_DURING_FETCH"),
        (ResyncError::NotInstalled, "SKILL_NOT_INSTALLED"),
        (ResyncError::Renamed { new_name: "n".into() }, "SKILL_RENAMED_IN_SOURCE"),
        (ResyncError::Parse("x".into()), "SKILL_PARSE_FAILED"),
        (ResyncError::Conflict("x".into()), "SKILL_UPDATE_CONFLICT"),
        (ResyncError::OutOfTree("x".into()), "SKILL_TARGET_OUT_OF_TREE"),
        (ResyncError::Hash("x".into()), "SKILL_SYNC_ERROR"),
        (ResyncError::Swap("x".into()), "SKILL_SYNC_ERROR"),
        (ResyncError::LockUpdate("x".into()), "SKILL_LOCK_ERROR"),
    ];
    for (error, expected) in cases {
        assert_eq!(resync_error_code(&error), expected, "{error:?} must keep the code both surfaces publish");
    }
}

#[test]
fn a_stale_fetch_is_not_confused_with_a_busy_lock() {
    assert_ne!(
        resync_error_code(&ResyncError::StaleFetch("x".into())),
        resync_error_code(&ResyncError::Locked("x".into())),
        "one is retryable by waiting, the other needs a re-fetch"
    );
}

#[test]
fn errors_when_not_installed() {
    // Locked but never installed: the disk check answers first, before any
    // fetch identity or parse is looked at.
    let (stage, action) = resync_step("ghost", ResyncStage::Guard, ResyncEvent::Guard(Ok(())));
    assert!(matches!(action, ResyncAction::Continue));
    let (stage, action) = resync_step("ghost", stage, ResyncEvent::Targets(0));
    assert!(matches!(stage, ResyncStage::Done));
    assert!(matches!(action, ResyncAction::Fail(ResyncError::NotInstalled)));
}
