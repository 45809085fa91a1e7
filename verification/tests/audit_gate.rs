use aghub_core::audit::{guard_fetched_source, refusal_message, severity_label, AuditReport, Finding, Severity, Verdict};
use aghub_core::lock::EntryIdentity;
use aghub_core::models::ResourceScope;
use aghub_core::resync::{resync_audit, resync_report, ResyncRequest};
use aghub_core::manager::ConfigError;

fn finding(rule: &str, severity: Severity, file: &str) -> Finding {
    Finding { rule_id: rule.to_string(), severity, file: file.to_string(), evidence: "e".to_string() }
}

fn malicious() -> AuditReport {
    AuditReport {
        verdict: Verdict::Malicious,
        summary: "2 critical findings".to_string(),
        findings: vec![
            finding("prompt-injection", Severity::Critical, "SKILL.md"),
            finding("curl-pipe-sh", Severity::High, "install.sh"),
            finding("prompt-injection", Severity::Critical, "SKILL.md"),
            finding("long-line", Severity::Low, "notes.txt"),
        ],
    }
}

#[test]
fn severities_have_their_labels() {
    assert_eq!(severity_label(Severity::Critical), "critical");
    assert_eq!(severity_label(Severity::High), "high");
    assert_eq!(severity_label(Severity::Medium), "medium");
    assert_eq!(severity_label(Severity::Low), "low");
    assert_eq!(severity_label(Severity::Info), "info");
}

#[test]
fn a_refusal_names_each_severe_finding_once_in_order() {
    assert_eq!(
        refusal_message("demo", &malicious()),
        "Skill 'demo' was refused by the security audit: 2 critical findings. Findings: curl-pipe-sh in install.sh, \
         prompt-injection in SKILL.md. Re-run with --force-unsafe if you have reviewed the source and believe this \
         is a false positive."
    );
}

#[test]
fn a_blocking_report_refuses_unless_forced() {
    match guard_fetched_source("demo", Ok(malicious()), true, false) {
        Err(ConfigError::ValidationFailed(m)) => assert!(m.starts_with("Skill 'demo' was refused by the security audit")),
        other => panic!("expected a refusal, got {other:?}"),
    }
    let forced = guard_fetched_source("demo", Ok(malicious()), true, true).unwrap().unwrap();
    assert_eq!(forced.verdict, Verdict::Malicious);
    assert_eq!(forced.findings.len(), 4);
}

#[test]
fn a_report_that_does_not_block_is_handed_back() {
    let suspicious = AuditReport {
        verdict: Verdict::Suspicious,
        summary: "one medium finding".to_string(),
        findings: vec![finding("odd", Severity::Medium, "a.sh")],
    };
    let back = guard_fetched_source("demo", Ok(suspicious), false, false).unwrap().unwrap();
    assert_eq!(back.summary, "one medium finding");
}

#[test]
fn a_tree_that_could_not_be_audited_goes_through_unaudited() {
    assert!(guard_fetched_source("demo", Err("unreadable".to_string()), true, false).unwrap().is_none());
}

fn resync_request(force_unsafe: bool) -> ResyncRequest<'static> {
    ResyncRequest {
        source_dir: "/tmp/src/demo",
        name: "demo",
        scope: ResourceScope::ProjectOnly,
        project_root: Some("/p"),
        ref_commit: None,
        expected: EntryIdentity::unchecked_for_tests("o/r", Some("demo/SKILL.md".to_string()), Some("main".to_string())),
        force_unsafe,
    }
}

#[test]
fn a_resync_is_gated_like_an_install_with_its_own_override() {
    let refused = resync_audit(&resync_request(false), Ok(malicious()), true).unwrap_err();
    assert_eq!(refused, refusal_message("demo", &malicious()));
    assert_eq!(resync_audit(&resync_request(true), Ok(malicious()), true), Ok(()));
    assert_eq!(resync_audit(&resync_request(false), Err("unreadable".into()), true), Ok(()));
    assert_eq!(resync_audit(&resync_request(false), Ok(malicious()), false), Ok(()));
    let report = resync_report(vec!["/p/.codex/skills/demo".into()], "feedface".into());
    assert_eq!(report.swapped, vec!["/p/.codex/skills/demo".to_string()]);
    assert_eq!(report.updated_hash, "feedface");
}
