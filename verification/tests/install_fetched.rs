use aghub_core::classify::LinkNeed;
use aghub_core::install::{
    agent_install_row, coordinates_need_heal, fetched_install_report, materialize_summary, AgentInstallResult, MaterializedMaster, effective_coordinates, install_step, referrer_dirs_to_link,
    same_source_owner, InstallAction, InstallEvent, InstallLockSource, InstallStage, InstallState, LinkFreeFailure,
    LinkReport, LockedSourceOwner, MasterCheck, MasterSlot, MaterializeSummary,
};
use aghub_core::manager::ConfigError;
use aghub_core::models::ResourceScope;

fn owner(source_type: &str, source: &str, url: Option<&str>) -> LockedSourceOwner {
    LockedSourceOwner {
        source: source.into(),
        source_type: source_type.into(),
        source_url: url.map(|u| u.into()),
        ref_name: Some("main".into()),
        skill_path: Some("s/SKILL.md".into()),
        ref_commit: Some("abc".into()),
    }
}

fn request(source_type: &str, source: &str, url: &str) -> InstallLockSource {
    InstallLockSource { source: source.into(), source_type: source_type.into(), source_url: url.into(), ref_name: None }
}

#[test]
fn the_same_repo_in_another_spelling_is_the_same_owner() {
    let o = owner("github", "owner/repo", Some("https://github.com/owner/repo.git"));
    assert!(same_source_owner(&o, &request("GitHub", "owner/repo", "git@github.com:owner/repo.git")));
    assert!(!same_source_owner(&o, &request("github", "owner/repo", "https://gitlab.com/owner/repo.git")));
    assert!(!same_source_owner(&o, &request("local", "owner/repo", "https://github.com/owner/repo.git")));
}

#[test]
fn without_a_recorded_url_only_github_and_local_match_by_source() {
    let o = owner("github", "owner/repo", None);
    assert!(same_source_owner(&o, &request("github", "owner/repo", "https://example.com/x.git")));
    assert!(!same_source_owner(&o, &request("github", "other/repo", "https://github.com/owner/repo.git")));
    let o = owner("git", "owner/repo", Some("  "));
    assert!(!same_source_owner(&o, &request("git", "owner/repo", "https://host/owner/repo.git")));
    let o = owner("local", "/srv/s", Some("file:///srv/s"));
    assert!(same_source_owner(&o, &request("local", "/srv/s", " file:///srv/s ")));
}

#[test]
fn only_present_coordinates_can_differ() {
    let o = owner("github", "owner/repo", None);
    assert!(!coordinates_need_heal(&o, None, "s/SKILL.md", None));
    assert!(!coordinates_need_heal(&o, Some("main"), "s/SKILL.md", Some("abc")));
    assert!(coordinates_need_heal(&o, Some("dev"), "s/SKILL.md", None));
    assert!(coordinates_need_heal(&o, None, "t/SKILL.md", None));
    assert!(coordinates_need_heal(&o, None, "s/SKILL.md", Some("def")));
}

#[test]
fn a_rewrite_carries_the_recorded_ref_and_commit_over_only_in_context() {
    let o = owner("github", "owner/repo", None);
    let req = request("github", "owner/repo", "u");
    let (src, commit) = effective_coordinates(&req, None, "s/SKILL.md", Some(&o));
    assert_eq!(src.ref_name.as_deref(), Some("main"));
    assert_eq!(commit.as_deref(), Some("abc"));
    let (_, commit) = effective_coordinates(&req, None, "moved/SKILL.md", Some(&o));
    assert_eq!(commit, None, "a commit certifies one (ref, path) pair");
    let (src, commit) = effective_coordinates(&req, Some("new".into()), "s/SKILL.md", None);
    assert_eq!(src.ref_name, None);
    assert_eq!(commit.as_deref(), Some("new"));
}

#[test]
fn shared_referrer_dirs_are_linked_once() {
    let needs = vec![
        LinkNeed::NeedsLink { referrer_dir: "/p/.agents/skills".into() },
        LinkNeed::Unsupported,
        LinkNeed::NeedsLink { referrer_dir: "/p/.gemini/skills".into() },
        LinkNeed::NeedsLink { referrer_dir: "/p/.agents/skills".into() },
    ];
    assert_eq!(referrer_dirs_to_link(&needs), vec!["/p/.agents/skills".to_string(), "/p/.gemini/skills".to_string()]);
}

#[test]
fn per_agent_rows_follow_the_linker_report() {
    let report = LinkReport {
        failed: vec![("/f".into(), "denied".into())],
        conflicts: vec!["/c".into()],
        linked: vec!["/l".into()],
        already_linked: vec!["/a".into()],
    };
    let row = |d: &str| agent_install_row("x", &LinkNeed::NeedsLink { referrer_dir: d.into() }, &report);
    let r = row("/f");
    assert!(!r.installed && r.error.as_deref() == Some("denied"));
    let r = row("/c");
    assert_eq!(r.error.as_deref(), Some("A real directory or a foreign link already occupies this skill slot; it was not overwritten"));
    assert!(row("/l").installed && row("/l").error.is_none());
    assert!(row("/a").installed);
    assert!(!row("/other").installed && row("/other").error.is_none());
    let r = agent_install_row("x", &LinkNeed::Unsupported, &report);
    assert_eq!(r.error.as_deref(), Some("Agent does not support persistent skill creation in this scope"));
    assert_eq!(r.agent, "x");
}

fn start() -> InstallState {
    InstallState { stage: InstallStage::Parse, name: String::new(), installed_hash: String::new(), owner: None, has_store: false }
}

fn run(events: Vec<InstallEvent>, req: &InstallLockSource) -> (InstallState, InstallAction) {
    let mut st = start();
    let mut last = InstallAction::Continue;
    for e in events {
        let (next, action) = install_step(None, ResourceScope::ProjectOnly, req, "s/SKILL.md", &None, st, e);
        st = next;
        last = action;
    }
    (st, last)
}

#[test]
fn a_first_install_writes_its_lock_entry_and_creates_it() {
    let req = request("local", "local/test", "file:///local/test");
    let (st, action) = run(
        vec![
            InstallEvent::Parsed(Ok("my-skill".into())),
            InstallEvent::Guard(Ok(())),
            InstallEvent::Hashed(Ok("H".into())),
            InstallEvent::Owner(None),
            InstallEvent::Slot(MasterSlot::Absent),
            InstallEvent::Writable(Ok(())),
            InstallEvent::Materialized(Ok(MaterializeSummary { wrote_master: true, linked_any: true, covered_any: true })),
            InstallEvent::Rechecked(MasterCheck { link_free: Ok(()), hash: Ok("H".into()) }),
        ],
        &req,
    );
    assert_eq!(st.stage, InstallStage::LockWrite);
    assert_eq!(st.name, "my-skill");
    match action {
        InstallAction::WriteLock { source, ref_commit } => {
            assert_eq!(source.source, "local/test");
            assert_eq!(ref_commit, None);
        }
        other => panic!("{other:?}"),
    }
    let (st, action) = install_step(None, ResourceScope::ProjectOnly, &req, "s/SKILL.md", &None, st, InstallEvent::LockWritten(Ok(false)));
    assert_eq!(st.stage, InstallStage::Done);
    assert!(matches!(action, InstallAction::Finish { wrote_lock: true, created_lock: true }));
}

#[test]
fn an_idempotent_reinstall_writes_no_lock() {
    let req = request("local", "local/test", "file:///local/test");
    let mut o = owner("local", "local/test", Some("file:///local/test"));
    o.ref_name = None;
    o.ref_commit = None;
    let (_, action) = run(
        vec![
            InstallEvent::Parsed(Ok("my-skill".into())),
            InstallEvent::Guard(Ok(())),
            InstallEvent::Hashed(Ok("H".into())),
            InstallEvent::Owner(Some(o)),
            InstallEvent::Slot(MasterSlot::Present(MasterCheck { link_free: Ok(()), hash: Ok("H".into()) })),
            InstallEvent::Writable(Ok(())),
            InstallEvent::Materialized(Ok(MaterializeSummary { wrote_master: false, linked_any: false, covered_any: true })),
        ],
        &req,
    );
    assert!(matches!(action, InstallAction::Finish { wrote_lock: false, created_lock: false }));
}

#[test]
fn install_refusals() {
    let req = request("github", "owner/repo", "https://github.com/owner/repo.git");
    let (_, a) = install_step(Some("want"), ResourceScope::GlobalOnly, &req, "p", &None, start(), InstallEvent::Parsed(Ok("got".into())));
    assert!(matches!(a, InstallAction::Fail(ConfigError::ValidationFailed(ref m)) if m == "source skill was renamed to 'got'"));
    let (_, a) = install_step(None, ResourceScope::Both, &req, "p", &None, start(), InstallEvent::Parsed(Ok("got".into())));
    assert!(matches!(a, InstallAction::Fail(ConfigError::InvalidConfig(ref m)) if m == "Combined skill scope is not supported for installs"));
    let st = InstallState { stage: InstallStage::Owner, name: "s".into(), installed_hash: "H".into(), owner: None, has_store: false };
    let (_, a) = install_step(None, ResourceScope::GlobalOnly, &req, "p", &None, st, InstallEvent::Owner(Some(owner("github", "evil/repo", Some("https://github.com/evil/repo.git")))));
    assert!(matches!(a, InstallAction::Fail(ConfigError::ValidationFailed(ref m)) if m == "Skill 's' is already owned by source 'github:evil/repo'; its canonical source owner differs from requested source 'github:owner/repo', so reassignment was refused"));
    let st = InstallState { stage: InstallStage::MasterSlot, name: "s".into(), installed_hash: "H".into(), owner: None, has_store: false };
    let (_, a) = install_step(None, ResourceScope::GlobalOnly, &req, "p", &None, st, InstallEvent::Slot(MasterSlot::Present(MasterCheck { link_free: Err(LinkFreeFailure::HasLink), hash: Ok("H".into()) })));
    assert!(matches!(a, InstallAction::Fail(ConfigError::ValidationFailed(ref m)) if m == "Master for skill 's' contains a link or junction; refusing to adopt it"));
    let st = InstallState { stage: InstallStage::MasterSlot, name: "s".into(), installed_hash: "H".into(), owner: None, has_store: false };
    let (_, a) = install_step(None, ResourceScope::GlobalOnly, &req, "p", &None, st, InstallEvent::Slot(MasterSlot::Present(MasterCheck { link_free: Ok(()), hash: Ok("X".into()) })));
    assert!(matches!(a, InstallAction::Fail(ConfigError::ValidationFailed(ref m)) if m == "Pre-existing Master for skill 's' has different content; refusing to adopt it for fetched source 'owner/repo'"));
}

#[test]
fn only_a_failed_lock_write_rolls_the_materialized_install_back() {
    let req = request("github", "owner/repo", "u");
    let st = InstallState { stage: InstallStage::LockWrite, name: "s".into(), installed_hash: "H".into(), owner: None, has_store: true };
    let (_, a) = install_step(None, ResourceScope::GlobalOnly, &req, "p", &None, st, InstallEvent::LockWritten(Err(ConfigError::Io("full".into()))));
    assert!(matches!(a, InstallAction::RollBackThenFail(ConfigError::Io(ref m)) if m == "full"));
    let st = InstallState { stage: InstallStage::LockWrite, name: "s".into(), installed_hash: "H".into(), owner: None, has_store: true };
    let (_, a) = install_step(None, ResourceScope::GlobalOnly, &req, "p", &None, st, InstallEvent::LockWritten(Ok(true)));
    assert!(matches!(a, InstallAction::Finish { wrote_lock: true, created_lock: false }));
}

#[test]
fn a_finished_install_reports_what_it_did() {
    let m = MaterializedMaster {
        agent_results: vec![
            AgentInstallResult { agent: "codex".into(), installed: true, error: None },
            AgentInstallResult { agent: "zed".into(), installed: false, error: Some("no dir".into()) },
        ],
        wrote_master: true,
        created_referrer_dirs: vec!["/p/.codex/skills".into()],
    };
    let s = materialize_summary(&m);
    assert!(s.wrote_master && s.linked_any && s.covered_any);
    let st = InstallState { stage: InstallStage::Done, name: "s".into(), installed_hash: "H".into(), owner: None, has_store: true };
    let r = fetched_install_report(&st, true, true, None, None, m);
    assert_eq!(r.name, "s");
    assert_eq!(r.installed_hash, "H");
    assert!(r.wrote_lock && r.created_lock && r.wrote_master);
    assert_eq!(r.created_referrer_dirs, vec!["/p/.codex/skills".to_string()]);
    assert_eq!(r.agent_results.len(), 2);
    let none = MaterializedMaster {
        agent_results: vec![AgentInstallResult { agent: "zed".into(), installed: false, error: Some("x".into()) }],
        wrote_master: false,
        created_referrer_dirs: vec![],
    };
    let s = materialize_summary(&none);
    assert!(!s.wrote_master && !s.linked_any && !s.covered_any);
}
