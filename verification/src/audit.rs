//! The security gate over freshly fetched skill content: what an audit
//! report blocks, and the refusal a blocked install or update reports.
//!
//! The audit itself (reading the tree, running the rules, deciding whether
//! a report blocks) is done by the audit engine; this module takes its
//! answer as plain values.

use vstd::prelude::*;

use crate::lock::quoted_message;
use crate::manager::{comma_joined, join_comma, ConfigError};
use crate::removal::vs;
use crate::repair::{insert_sorted, strictly_sorted};

verus! {

/// How serious one finding is.
#[derive(Debug, Clone, Copy, PartialEq, Eq)]
pub enum Severity {
    Critical,
    High,
    Medium,
    Low,
    Info,
}

/// The engine's overall verdict on a tree.
#[derive(Debug, Clone, Copy, PartialEq, Eq)]
pub enum Verdict {
    Benign,
    Suspicious,
    Malicious,
}

/// One rule that fired, and where.
#[derive(Debug)]
pub struct Finding {
    pub rule_id: String,
    pub severity: Severity,
    pub file: String,
    pub evidence: String,
}

/// What an audit of a fetched tree found.
#[derive(Debug)]
pub struct AuditReport {
    pub verdict: Verdict,
    pub summary: String,
    pub findings: Vec<Finding>,
}

pub open spec fn label_of(s: Severity) -> Seq<char> {
    match s {
        Severity::Critical => "critical"@,
        Severity::High => "high"@,
        Severity::Medium => "medium"@,
        Severity::Low => "low"@,
        Severity::Info => "info"@,
    }
}

/// A severity as it is written in a warning.
pub fn severity_label(severity: Severity) -> (r: &'static str)
    ensures
        r@ == label_of(severity),
{
    proof {
        reveal_strlit("critical");
        reveal_strlit("high");
        reveal_strlit("medium");
        reveal_strlit("low");
        reveal_strlit("info");
    }
    match severity {
        Severity::Critical => "critical",
        Severity::High => "high",
        Severity::Medium => "medium",
        Severity::Low => "low",
        Severity::Info => "info",
    }
}

/// The findings a refusal names: the critical and high ones.
pub open spec fn severe(s: Severity) -> bool {
    s is Critical || s is High
}

pub open spec fn detail_of(f: Finding) -> Seq<char> {
    f.rule_id@ + " in "@ + f.file@
}

/// `k` is "rule in file" for a severe finding among the first `n`.
pub open spec fn names_severe(findings: Seq<Finding>, n: int, k: Seq<char>) -> bool {
    exists|i: int| 0 <= i < n && severe(#[trigger] findings[i].severity) && detail_of(findings[i]) == k
}

pub open spec fn refusal_text(name: Seq<char>, summary: Seq<char>, details: Seq<Seq<char>>) -> Seq<char> {
    "Skill '"@ + name + "' was refused by the security audit: "@ + summary + ". Findings: "@ + comma_joined(
        details,
    )
        + ". Re-run with --force-unsafe if you have reviewed the source and believe this is a false positive."@
}

/// `m` is the refusal of `name` for `report`: its severe findings, each
/// named once and in order, after the report's summary.
pub open spec fn is_refusal(m: Seq<char>, name: Seq<char>, report: AuditReport) -> bool {
    exists|details: Seq<Seq<char>>|
        #![trigger refusal_text(name, report.summary@, details)]
        {
            &&& strictly_sorted(details)
            &&& forall|k: Seq<char>| #[trigger]
                details.contains(k) == names_severe(report.findings@, report.findings@.len() as int, k)
            &&& m == refusal_text(name, report.summary@, details)
        }
}

/// The refusal a blocked install reports. Names the rules that fired and
/// where, so a false positive can be told from a real finding.
pub fn refusal_message(name: &str, report: &AuditReport) -> (r: String)
    ensures
        is_refusal(r@, name@, *report),
{
    let findings = &report.findings;
    let mut details: Vec<String> = Vec::new();
    assert(vs(details@) =~= Seq::<Seq<char>>::empty());
    let mut i: usize = 0;
    while i < findings.len()
        invariant
            i <= findings.len(),
            findings == &report.findings,
            strictly_sorted(vs(details@)),
            forall|k: Seq<char>| #[trigger]
                vs(details@).contains(k) == names_severe(findings@, i as int, k),
        decreases findings.len() - i,
    {
        let f = &findings[i];
        let is_severe = match f.severity {
            Severity::Critical | Severity::High => true,
            _ => false,
        };
        let ghost before = vs(details@);
        if is_severe {
            let d = quoted_message(f.rule_id.as_str(), " in ", f.file.as_str());
            insert_sorted(&mut details, d);
        }
        proof {
            assert forall|k: Seq<char>| #[trigger]
                vs(details@).contains(k) == names_severe(findings@, i + 1, k) by {
                if names_severe(findings@, i + 1, k) {
                    let j = choose|j: int|
                        0 <= j < i + 1 && severe(#[trigger] findings@[j].severity) && detail_of(findings@[j])
                            == k;
                    if j < i {
                        assert(names_severe(findings@, i as int, k));
                    }
                }
                if vs(details@).contains(k) && !before.contains(k) {
                    assert(severe(findings@[i as int].severity) && detail_of(findings@[i as int]) == k);
                }
                if before.contains(k) {
                    assert(names_severe(findings@, i as int, k));
                    let j = choose|j: int|
                        0 <= j < i && severe(#[trigger] findings@[j].severity) && detail_of(findings@[j]) == k;
                    assert(0 <= j < i + 1);
                }
            }
        }
        i = i + 1;
    }
    let joined = join_comma(&details);
    let head = quoted_message("Skill '", name, "' was refused by the security audit: ");
    let mid = quoted_message(head.as_str(), report.summary.as_str(), ". Findings: ");
    let r = quoted_message(
        mid.as_str(),
        joined.as_str(),
        ". Re-run with --force-unsafe if you have reviewed the source and believe this is a false positive.",
    );
    proof {
        let details_v = vs(details@);
        assert(r@ =~= refusal_text(name@, report.summary@, details_v));
    }
    r
}

/// Gate a fetched tree on its audit. `audited` is the engine's report, or
/// why no audit could run: a tree that could not be audited is let through
/// unaudited (`Ok(None)`), since the install reports its own read errors.
/// `blocks` is the engine's decision on the report. A blocking report
/// refuses unless `force`; any other report is handed back.
pub fn guard_fetched_source(name: &str, audited: Result<AuditReport, String>, blocks: bool, force: bool) -> (r:
    Result<Option<AuditReport>, ConfigError>)
    ensures
        audited is Err ==> r matches Ok(None),
        audited matches Ok(rep) ==> if blocks && !force {
            r matches Err(ConfigError::ValidationFailed(m)) && is_refusal(m@, name@, rep)
        } else {
            r == Ok::<Option<AuditReport>, ConfigError>(Some(rep))
        },
{
    match audited {
        Err(_) => Ok(None),
        Ok(report) => {
            if blocks && !force {
                Err(ConfigError::ValidationFailed(refusal_message(name, &report)))
            } else {
                Ok(Some(report))
            }
        },
    }
}

} // verus!
