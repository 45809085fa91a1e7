use aghub_core::lock::{MUTATION_LOCK_BUSY_CODE, SOURCE_CHANGED_DURING_FETCH_CODE};
use aghub_core::rename::{ensure_distinct_names, RenameError, RENAME_TARGET_EXISTS_CODE};

#[test]
fn only_target_exists_variants_carry_the_machine_code() {
    let s = || "x".to_string();
    let all = [
        RenameError::NotLocked(s()),
        RenameError::NoInstalledCopy(s()),
        RenameError::SameSanitizedName,
        RenameError::TargetExists(s()),
        RenameError::SkillPathNotFound,
        RenameError::NameMismatch { declared: s(), expected: s() },
        RenameError::ParseFailed(s()),
        RenameError::Locked(s()),
        RenameError::StaleFetch(s()),
        RenameError::Snapshot(s()),
        RenameError::InstallFailed(s()),
        RenameError::RemovalFailed(s()),
        RenameError::LockRemovalFailed(s()),
    ];
    for e in &all {
        let expected = match e {
            RenameError::SameSanitizedName | RenameError::TargetExists(_) => Some(RENAME_TARGET_EXISTS_CODE),
            RenameError::Locked(_) => Some(MUTATION_LOCK_BUSY_CODE),
            RenameError::StaleFetch(_) => Some(SOURCE_CHANGED_DURING_FETCH_CODE),
            _ => None,
        };
        assert_eq!(e.code(), expected, "unexpected code() for {e:?}");
    }
}

#[test]
fn ensure_distinct_names_rejects_sanitized_collision() {
    assert!(matches!(ensure_distinct_names("old skill", "old-skill"), Err(RenameError::SameSanitizedName)));
    assert!(ensure_distinct_names("old-skill", "new-skill").is_ok());
}

#[test]
fn messages_carry_their_identifying_names() {
    assert!(RenameError::NoInstalledCopy("myskill".into()).message().contains("myskill"));
    assert!(RenameError::TargetExists("newname".into()).message().contains("newname"));
    let mismatch = RenameError::NameMismatch { declared: "got".into(), expected: "want".into() }.message();
    assert!(mismatch.contains("got") && mismatch.contains("want"));
}
