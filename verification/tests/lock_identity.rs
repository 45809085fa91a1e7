use aghub_core::lock::EntryIdentity;
use aghub_core::lock::update_lock_hash;
use aghub_core::models::{Locks, ResourceScope, SkillLockEntry};
use aghub_core::table::LockTable;

fn identity(source: &str, skill_path: &str) -> EntryIdentity {
    EntryIdentity::unchecked_for_tests(source, Some(skill_path.to_string()), Some("main".to_string()))
}

#[test]
fn a_different_repo_is_refused() {
    let entry = identity("https://github.com/good/repo.git", "s/SKILL.md");
    assert!(!entry.describes("https://github.com/evil/repo.git", "s/SKILL.md"));
    assert!(!entry.describes("https://gitlab.com/good/repo.git", "s/SKILL.md"));
}

#[test]
fn one_repo_spelled_many_ways_is_accepted() {
    let shorthand = identity("owner/repo", "s/SKILL.md");
    for claimed in [
        "owner/repo",
        "https://github.com/owner/repo",
        "https://github.com/owner/repo.git",
        "https://GitHub.com/owner/repo.git/",
        "git@github.com:owner/repo.git",
        "ssh://git@github.com/owner/repo.git",
    ] {
        assert!(shorthand.describes(claimed, "s/SKILL.md"), "'{claimed}' is the same repo as the shorthand");
    }
    let full = identity("https://github.com/owner/repo.git", "s/SKILL.md");
    assert!(full.describes("owner/repo", "s/SKILL.md"));
}

#[test]
fn a_different_skill_path_is_refused() {
    let entry = identity("owner/repo", "mine/SKILL.md");
    assert!(!entry.describes("owner/repo", "theirs/SKILL.md"));
    assert!(entry.describes("owner/repo", "mine/SKILL.md"));
}

#[test]
fn an_unprovable_source_is_allowed_through() {
    let local = identity("file:///srv/skills", "s/SKILL.md");
    assert!(local.describes("file:///somewhere/else", "s/SKILL.md"));
    let entry = identity("owner/repo", "s/SKILL.md");
    assert!(entry.describes("not a url at all", "s/SKILL.md"));
}

#[test]
fn an_entry_without_a_skill_path_still_checks_the_source() {
    let entry = EntryIdentity::unchecked_for_tests("owner/repo", None, None);
    assert!(entry.describes("owner/repo", "anything/SKILL.md"));
    assert!(!entry.describes("other/repo", "anything/SKILL.md"));
}

#[test]
fn a_restamp_records_the_hash_and_the_current_time() {
    let mut locks = Locks { global: LockTable::new(), project: LockTable::new() };
    locks.global.insert(
        "demo".to_string(),
        SkillLockEntry {
            source: "o/r".into(),
            source_type: "github".into(),
            source_url: "https://github.com/o/r".into(),
            ref_name: None,
            skill_path: None,
            skill_folder_hash: "old".into(),
            content_hash: None,
            ref_commit: Some("abc".into()),
            installed_at: "2020-01-01T00:00:00+00:00".into(),
            updated_at: "2020-01-01T00:00:00+00:00".into(),
            plugin_name: None,
        },
    );
    update_lock_hash("demo", ResourceScope::GlobalOnly, None, "new", None, &mut locks).unwrap();
    let e = locks.global.get("demo").unwrap();
    assert_eq!(e.skill_folder_hash, "new");
    assert_eq!(e.content_hash.as_deref(), Some("new"));
    assert_eq!(e.ref_commit, None);
    assert_eq!(e.installed_at, "2020-01-01T00:00:00+00:00");
    assert_ne!(e.updated_at, "2020-01-01T00:00:00+00:00");
    assert!(e.updated_at.contains('T') && e.updated_at.ends_with("+00:00"));
}
