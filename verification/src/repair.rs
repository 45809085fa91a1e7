//! Skill repair: the verdicts and wording of a repair, and the batch that
//! repairs every locked skill of a scope. A refused row reads as an
//! instruction: `fix` is the literal next command or path.

use vstd::prelude::*;

use crate::discovery::lex_lt;
use crate::lock::quoted_message;
use crate::manager::ConfigError;
use crate::removal::vs;
use crate::models::ResourceScope;
use crate::text::{owned, str_eq};

verus! {

/// What repair did, not what the skill is.
#[derive(Debug, PartialEq, Eq)]
pub enum RepairOutcome {
    /// Already correct; nothing written.
    Conformant,
    /// Master moved into the store and implicit reads became Referrers.
    Migrated,
    /// A chain or a Referrer pointing elsewhere, repointed at the Master.
    Relinked,
    /// A clobbered, hash-equal fork was quarantined and the Referrer restored.
    Reconciled,
    /// Stale Referrers were detached from dirs the agent only reads.
    Tidied,
    /// Nothing written: why, and what to do about it.
    Refused { reason: String, fix: String },
    /// The repair was attempted and the system refused it.
    Failed { reason: String, fix: String },
}

/// The result of one skill's repair.
#[derive(Debug)]
pub struct RepairReport {
    pub name: String,
    pub outcome: RepairOutcome,
    pub master: String,
    /// Referrers created or repointed.
    pub referrers: Vec<String>,
    /// Stale Referrers detached from read-only compat dirs.
    pub unlinked: Vec<String>,
    /// Where a fork was moved, when one was.
    pub quarantined: Option<String>,
    /// Agents that still share one directory after this repair.
    pub fused: Vec<String>,
    /// The writes were withheld.
    pub dry_run: bool,
}

/// Why a repair refuses to touch a skill.
#[derive(Debug, PartialEq, Eq)]
pub enum RefuseReason {
    /// The slot is the Master itself, reached through a symlinked parent.
    AliasedMaster,
    /// The store holds a link where the Master must be a real directory.
    MasterIsLink,
    /// Something that is not a directory occupies the Master path.
    MasterIsNotADir,
    /// A Referrer slot is neither a link nor a directory.
    ReferrerIsNotADir,
    /// There is no Master and nothing that may be adopted as one.
    MasterMissing,
    /// A compat dir could not be read.
    UnreadableCompatDir { path: String },
}

pub open spec fn describe_spec(reason: RefuseReason, at: Seq<char>) -> Seq<char> {
    match reason {
        RefuseReason::AliasedMaster => at + " IS the master, reached through a symlinked parent"@,
        RefuseReason::MasterIsLink => "the store holds a link where it must hold a real directory"@,
        RefuseReason::MasterIsNotADir => "something that is not a directory occupies the master path"@,
        RefuseReason::ReferrerIsNotADir => at + " is neither a link nor a directory"@,
        RefuseReason::MasterMissing => "there is no master and nothing that may be adopted as one"@,
        RefuseReason::UnreadableCompatDir { path } => path@
            + " could not be read, so it is undecided whether it is safe to detach"@,
    }
}

pub open spec fn fix_spec(reason: RefuseReason, at: Seq<char>, name: Seq<char>) -> Seq<char> {
    match reason {
        RefuseReason::AliasedMaster => "a parent of "@ + at
            + " is a symlink; resolve that symlink (or move the store) so the master and the referrer are distinct paths"@,
        RefuseReason::MasterIsLink | RefuseReason::MasterIsNotADir =>
            "replace the store entry with a real directory, then re-run `aghub skills repair "@ + name + "`"@,
        RefuseReason::ReferrerIsNotADir => "move "@ + at + " aside yourself, then re-run `aghub skills repair "@
            + name + "`"@,
        RefuseReason::MasterMissing =>
            "nothing to repair from — install it again with `aghub skills add <source> -a <agent>`, or delete the dead referrer at "@
            + at,
        RefuseReason::UnreadableCompatDir { path } => "fix the permission on "@ + path@
            + " (or one of its parent directories), or move it aside if it is not yours to change or its mount is unreachable — repair proceeds once the path is readable or gone; then re-run `aghub skills repair "@
            + name + "`"@,
    }
}

/// `prefix` followed by `s`.
fn prefixed(prefix: &str, s: &str) -> (r: String)
    ensures
        r@ == prefix@ + s@,
{
    let r = quoted_message(prefix, s, "");
    proof {
        reveal_strlit("");
        assert(prefix@ + s@ + ""@ =~= prefix@ + s@);
    }
    r
}

/// `s` followed by `suffix`.
fn suffixed(s: &str, suffix: &str) -> (r: String)
    ensures
        r@ == s@ + suffix@,
{
    let r = quoted_message("", s, suffix);
    proof {
        reveal_strlit("");
        assert(""@ + s@ + suffix@ =~= s@ + suffix@);
    }
    r
}

/// Why a repair refuses, in words.
pub fn describe(reason: &RefuseReason, at: &str) -> (r: String)
    ensures
        r@ == describe_spec(*reason, at@),
{
    match reason {
        RefuseReason::AliasedMaster => suffixed(at, " IS the master, reached through a symlinked parent"),
        RefuseReason::MasterIsLink => owned("the store holds a link where it must hold a real directory"),
        RefuseReason::MasterIsNotADir => owned("something that is not a directory occupies the master path"),
        RefuseReason::ReferrerIsNotADir => suffixed(at, " is neither a link nor a directory"),
        RefuseReason::MasterMissing => owned("there is no master and nothing that may be adopted as one"),
        RefuseReason::UnreadableCompatDir { path } => suffixed(
            path.as_str(),
            " could not be read, so it is undecided whether it is safe to detach",
        ),
    }
}

/// What to do about a refusal: the literal next command or path.
pub fn fix_for(reason: &RefuseReason, at: &str, name: &str) -> (r: String)
    ensures
        r@ == fix_spec(*reason, at@, name@),
{
    match reason {
        RefuseReason::AliasedMaster => quoted_message(
            "a parent of ",
            at,
            " is a symlink; resolve that symlink (or move the store) so the master and the referrer are distinct paths",
        ),
        RefuseReason::MasterIsLink | RefuseReason::MasterIsNotADir => quoted_message(
            "replace the store entry with a real directory, then re-run `aghub skills repair ",
            name,
            "`",
        ),
        RefuseReason::ReferrerIsNotADir => {
            let head = quoted_message("move ", at, " aside yourself, then re-run `aghub skills repair ");
            quoted_message(head.as_str(), name, "`")
        },
        RefuseReason::MasterMissing => prefixed(
            "nothing to repair from — install it again with `aghub skills add <source> -a <agent>`, or delete the dead referrer at ",
            at,
        ),
        RefuseReason::UnreadableCompatDir { path } => {
            let head = quoted_message(
                "fix the permission on ",
                path.as_str(),
                " (or one of its parent directories), or move it aside if it is not yours to change or its mount is unreachable — repair proceeds once the path is readable or gone; then re-run `aghub skills repair ",
            );
            quoted_message(head.as_str(), name, "`")
        },
    }
}

/// How a fork compares with the Master.
#[derive(Debug, PartialEq, Eq)]
pub enum Comparison {
    Equal,
    Diverged,
    /// Either side could not be hashed: never evidence of sameness.
    Undecidable(String),
}

/// Compare folder hashes: equal hashes are equal content; a hash error
/// (the fork's first) makes the comparison undecidable.
pub fn compare_hashes(fork: Result<String, String>, master: Result<String, String>) -> (r: Comparison)
    ensures
        match (fork, master) {
            (Ok(a), Ok(b)) => if a@ == b@ {
                r is Equal
            } else {
                r is Diverged
            },
            (Err(e), _) => r == Comparison::Undecidable(e),
            (Ok(_), Err(e)) => r == Comparison::Undecidable(e),
        },
{
    match (fork, master) {
        (Ok(a), Ok(b)) => if str_eq(a.as_str(), b.as_str()) {
            Comparison::Equal
        } else {
            Comparison::Diverged
        },
        (Err(e), _) => Comparison::Undecidable(e),
        (Ok(_), Err(e)) => Comparison::Undecidable(e),
    }
}

pub open spec fn fork_refusal_spec(fork: Seq<char>, master: Seq<char>, name: Seq<char>, c: Comparison) -> Option<
    (Seq<char>, Seq<char>),
> {
    match c {
        Comparison::Equal => None,
        Comparison::Diverged => Some(
            (
                fork + " holds content that differs from the master at "@ + master,
                "compare them, then keep the one you want: `diff -r "@ + fork + " "@ + master
                    + "`. Move the copy you do not want aside and re-run `aghub skills repair "@ + name + "`"@,
            ),
        ),
        Comparison::Undecidable(why) => Some(
            (
                "cannot hash "@ + fork + " to compare it with the master: "@ + why@,
                "make it readable, or move it aside yourself (`mv "@ + fork + " "@ + fork
                    + ".bak`) and re-run `aghub skills repair "@ + name + "`"@,
            ),
        ),
    }
}

/// The refusal a fork's comparison earns: a diverged fork, or one that
/// cannot be compared, blocks the repair before anything is written.
pub fn fork_refusal(fork: &str, master: &str, name: &str, c: &Comparison) -> (r: Option<RepairOutcome>)
    ensures
        match fork_refusal_spec(fork@, master@, name@, *c) {
            None => r is None,
            Some((reason, fix)) => (r matches Some(RepairOutcome::Refused { reason: x, fix: y }) && x@ == reason
                && y@ == fix),
        },
{
    match c {
        Comparison::Equal => None,
        Comparison::Diverged => {
            let reason = quoted_message(fork, " holds content that differs from the master at ", master);
            let a = quoted_message("compare them, then keep the one you want: `diff -r ", fork, " ");
            let b = quoted_message(a.as_str(), master, "`. Move the copy you do not want aside and re-run `aghub skills repair ");
            let fix = quoted_message(b.as_str(), name, "`");
            Some(RepairOutcome::Refused { reason, fix })
        },
        Comparison::Undecidable(why) => {
            let head = quoted_message("cannot hash ", fork, " to compare it with the master: ");
            let reason = prefixed(head.as_str(), why.as_str());
            let a = quoted_message("make it readable, or move it aside yourself (`mv ", fork, " ");
            let b = quoted_message(a.as_str(), fork, ".bak`) and re-run `aghub skills repair ");
            let fix = quoted_message(b.as_str(), name, "`");
            Some(RepairOutcome::Refused { reason, fix })
        },
    }
}

pub open spec fn failed_fix(name: Seq<char>) -> Seq<char> {
    "fix the cause above (most often a permission on the skill directory), then re-run `aghub skills repair "@
        + name + "` — repair is idempotent, so a partly-applied skill is picked up where it stands"@
}

/// The row a skill gets when its own repair errored: no Master, Referrers
/// or quarantine are named, since none of them is known to have happened.
pub fn failed_report(name: &str, dry_run: bool, reason: String) -> (r: RepairReport)
    ensures
        r.name@ == name@,
        r.outcome matches RepairOutcome::Failed { reason: x, fix: y } && x == reason && y@ == failed_fix(name@),
        r.master@.len() == 0,
        r.referrers@.len() == 0,
        r.unlinked@.len() == 0,
        r.quarantined is None,
        r.fused@.len() == 0,
        r.dry_run == dry_run,
{
    let fix = quoted_message(
        "fix the cause above (most often a permission on the skill directory), then re-run `aghub skills repair ",
        name,
        "` — repair is idempotent, so a partly-applied skill is picked up where it stands",
    );
    let master = owned("");
    proof {
        reveal_strlit("");
    }
    RepairReport {
        name: owned(name),
        outcome: RepairOutcome::Failed { reason, fix },
        master,
        referrers: Vec::new(),
        unlinked: Vec::new(),
        quarantined: None,
        fused: Vec::new(),
        dry_run,
    }
}

pub proof fn lemma_lex_total(a: Seq<char>, b: Seq<char>)
    requires
        a != b,
    ensures
        lex_lt(a, b) || lex_lt(b, a),
    decreases a.len(),
{
    if a.len() > 0 && b.len() > 0 && a[0] == b[0] {
        if a.drop_first() == b.drop_first() {
            assert(a =~= seq![a[0]] + a.drop_first());
            assert(b =~= seq![b[0]] + b.drop_first());
        }
        lemma_lex_total(a.drop_first(), b.drop_first());
    } else if a.len() == 0 && b.len() == 0 {
        assert(a =~= b);
    }
}

/// Strictly increasing names: sorted, each once.
pub open spec fn strictly_sorted(s: Seq<Seq<char>>) -> bool {
    forall|i: int, j: int| 0 <= i < j < s.len() ==> lex_lt(#[trigger] s[i], #[trigger] s[j])
}

pub(crate) fn insert_sorted(v: &mut Vec<String>, x: String)
    requires
        strictly_sorted(vs(old(v)@)),
    ensures
        strictly_sorted(vs(final(v)@)),
        forall|k: Seq<char>| #[trigger] vs(final(v)@).contains(k) == (vs(old(v)@).contains(k) || k == x@),
{
    let ghost before = vs(v@);
    let mut p: usize = 0;
    while p < v.len() && crate::discovery::name_lt(v[p].as_str(), x.as_str())
        invariant
            p <= v.len(),
            vs(v@) == before,
            strictly_sorted(before),
            forall|k: int| 0 <= k < p ==> lex_lt(#[trigger] before[k], x@),
        decreases v.len() - p,
    {
        p = p + 1;
    }
    if p < v.len() && str_eq(v[p].as_str(), x.as_str()) {
        proof {
            assert forall|k: Seq<char>| #[trigger] vs(v@).contains(k) == (before.contains(k) || k == x@) by {
                if k == x@ {
                    assert(before[p as int] == x@);
                }
            }
        }
        return;
    }
    let ghost xv = x@;
    v.insert(p, x);
    proof {
        assert(vs(v@) =~= before.insert(p as int, xv));
        if p < before.len() {
            assert(!lex_lt(before[p as int], xv));
            assert(before[p as int] != xv);
            lemma_lex_total(before[p as int], xv);
        }
        assert forall|i: int, j: int| 0 <= i < j < vs(v@).len() implies lex_lt(
            #[trigger] vs(v@)[i],
            #[trigger] vs(v@)[j],
        ) by {
            if j < p {
                assert(vs(v@)[i] == before[i] && vs(v@)[j] == before[j]);
            } else if j == p {
                assert(vs(v@)[i] == before[i]);
            } else if i == p {
                assert(vs(v@)[j] == before[j - 1]);
                if j - 1 > p {
                    assert(lex_lt(before[p as int], before[j - 1]));
                    crate::discovery::lemma_lex_trans(xv, before[p as int], before[j - 1]);
                }
            } else if i < p {
                assert(vs(v@)[i] == before[i] && vs(v@)[j] == before[j - 1]);
                assert(lex_lt(before[i], xv));
                assert(vs(v@)[p as int] == xv);
                if j - 1 >= p {
                    assert(lex_lt(xv, before[p as int]));
                    crate::discovery::lemma_lex_trans(before[i], xv, before[p as int]);
                    if j - 1 > p {
                        crate::discovery::lemma_lex_trans(before[i], before[p as int], before[j - 1]);
                    }
                }
            } else {
                assert(vs(v@)[i] == before[i - 1] && vs(v@)[j] == before[j - 1]);
            }
        }
        assert forall|k: Seq<char>| #[trigger] vs(v@).contains(k) == (before.contains(k) || k == xv) by {
            if vs(v@).contains(k) {
                let j = choose|j: int| 0 <= j < vs(v@).len() && vs(v@)[j] == k;
                if j < p {
                    assert(before[j] == k);
                } else if j > p {
                    assert(before[j - 1] == k);
                }
            }
            if before.contains(k) {
                let j = choose|j: int| 0 <= j < before.len() && before[j] == k;
                if j < p {
                    assert(vs(v@)[j] == k);
                } else {
                    assert(vs(v@)[j + 1] == k);
                }
            }
            if k == xv {
                assert(vs(v@)[p as int] == xv);
            }
        }
    }
}

fn add_all_sorted(v: &mut Vec<String>, more: &Vec<String>)
    requires
        strictly_sorted(vs(old(v)@)),
    ensures
        strictly_sorted(vs(final(v)@)),
        forall|k: Seq<char>| #[trigger] vs(final(v)@).contains(k) == (vs(old(v)@).contains(k) || vs(more@).contains(k)),
{
    let ghost v0 = vs(v@);
    let mut i: usize = 0;
    while i < more.len()
        invariant
            i <= more.len(),
            v0 == vs(old(v)@),
            strictly_sorted(vs(v@)),
            forall|k: Seq<char>| #[trigger] vs(v@).contains(k) == (v0.contains(k) || vs(more@).take(i as int).contains(k)),
        decreases more.len() - i,
    {
        let ghost before = vs(v@);
        insert_sorted(v, more[i].clone());
        proof {
            assert(vs(more@).take(i + 1) =~= vs(more@).take(i as int).push(more@[i as int]@));
            assert forall|k: Seq<char>| #[trigger] vs(v@).contains(k) == (v0.contains(k) || vs(more@).take(i + 1).contains(k)) by {
                crate::prune::lemma_contains_push(vs(more@).take(i as int), more@[i as int]@, k);
            }
        }
        i = i + 1;
    }
    assert(vs(more@).take(more.len() as int) =~= vs(more@));
}

/// The skills a bulk repair visits: the named one, or every key of the
/// scope's lock(s) (the global lock for a global repair, the project lock
/// when there is a root), sorted and each once.
pub fn repair_worklist(
    scope: ResourceScope,
    has_root: bool,
    global_keys: &Vec<String>,
    project_keys: &Vec<String>,
) -> (r: Vec<String>)
    ensures
        strictly_sorted(vs(r@)),
        forall|k: Seq<char>| #[trigger] vs(r@).contains(k) == ((scope == ResourceScope::GlobalOnly && vs(
            global_keys@,
        ).contains(k)) || (has_root && vs(project_keys@).contains(k))),
{
    let mut out: Vec<String> = Vec::new();
    assert(vs(out@) =~= Seq::<Seq<char>>::empty());
    if scope == ResourceScope::GlobalOnly {
        add_all_sorted(&mut out, global_keys);
    }
    if has_root {
        add_all_sorted(&mut out, project_keys);
    }
    out
}

fn copy_strings(v: &Vec<String>) -> (r: Vec<String>)
    ensures
        vs(r@) == vs(v@),
{
    let mut out: Vec<String> = Vec::new();
    let mut i: usize = 0;
    while i < v.len()
        invariant
            i <= v.len(),
            vs(out@) == vs(v@).take(i as int),
        decreases v.len() - i,
    {
        let ghost before = vs(out@);
        let x = v[i].clone();
        let ghost xv = x@;
        out.push(x);
        assert(vs(out@) =~= before.push(xv));
        assert(vs(v@).take(i + 1) =~= vs(v@).take(i as int).push(xv));
        i = i + 1;
    }
    assert(vs(v@).take(v.len() as int) =~= vs(v@));
    out
}

/// Whether a repair row is the `Failed` row of `name` with this reason.
pub open spec fn is_failed_row(row: RepairReport, name: Seq<char>, dry_run: bool, reason: String) -> bool {
    &&& row.name@ == name
    &&& row.outcome matches RepairOutcome::Failed { reason: x, fix: y } && x == reason && y@ == failed_fix(name)
    &&& row.master@.len() == 0
    &&& row.referrers@.len() == 0
    &&& row.unlinked@.len() == 0
    &&& row.quarantined is None
    &&& row.fused@.len() == 0
    &&& row.dry_run == dry_run
}

/// The rows a batch reports for the repairs of `names` that gave `results`:
/// nothing for a scope with no single store, a skill's own report unless it
/// is conformant in a bulk run, and a `Failed` row for an error.
pub open spec fn rows_from(
    results: Seq<Result<Option<RepairReport>, String>>,
    names: Seq<Seq<char>>,
    bulk: bool,
    dry_run: bool,
    rows: Seq<RepairReport>,
) -> bool
    decreases results.len(),
{
    if results.len() == 0 {
        rows.len() == 0
    } else {
        let prev = results.drop_last();
        let pn = names.drop_last();
        match results.last() {
            Ok(None) => rows_from(prev, pn, bulk, dry_run, rows),
            Ok(Some(rep)) => if bulk && rep.outcome is Conformant {
                rows_from(prev, pn, bulk, dry_run, rows)
            } else {
                rows.len() > 0 && rows.last() == rep && rows_from(prev, pn, bulk, dry_run, rows.drop_last())
            },
            Err(e) => rows.len() > 0 && is_failed_row(rows.last(), names.last(), dry_run, e) && rows_from(
                prev,
                pn,
                bulk,
                dry_run,
                rows.drop_last(),
            ),
        }
    }
}

/// Whether the scope's lock(s) list `k`: the global lock for a global
/// repair, the project lock when there is a root.
pub open spec fn lock_lists(
    scope: ResourceScope,
    has_root: bool,
    global_lock: Result<Vec<String>, String>,
    project_lock: Result<Vec<String>, String>,
    k: Seq<char>,
) -> bool {
    (scope == ResourceScope::GlobalOnly && (global_lock matches Ok(g) && vs(g@).contains(k))) || (has_root
        && (project_lock matches Ok(p) && vs(p@).contains(k)))
}

pub open spec fn repaired_one<F: Fn(&str, bool) -> Result<Option<RepairReport>, String>>(
    repair: F,
    a: &str,
    locked: bool,
    res: Result<Option<RepairReport>, String>,
) -> bool {
    repair.ensures((a, locked), res)
}

/// Each of `names` was repaired by a call of `repair` with that name (as
/// `args[i]`) and whether the scope's lock lists it, and gave `results[i]`.
pub open spec fn each_repaired<F: Fn(&str, bool) -> Result<Option<RepairReport>, String>>(
    repair: F,
    scope: ResourceScope,
    has_root: bool,
    global_lock: Result<Vec<String>, String>,
    project_lock: Result<Vec<String>, String>,
    names: Seq<Seq<char>>,
    results: Seq<Result<Option<RepairReport>, String>>,
    args: Seq<&str>,
) -> bool {
    &&& args.len() == names.len()
    &&& results.len() == names.len()
    &&& forall|i: int|
        0 <= i < names.len() ==> #[trigger] args[i]@ == names[i] && repaired_one(
            repair,
            args[i],
            lock_lists(scope, has_root, global_lock, project_lock, names[i]),
            results[i],
        )
}

/// Repair every locked skill of a scope (or just `name`). `guard` is taking
/// the mutation lock (not taken for a dry run); the lock keys are read fail
/// closed; `repair` repairs one skill given whether the lock names it. The
/// skills are visited in [`repair_worklist`] order (or just `name`); a
/// skill whose repair errs becomes a `Failed` row instead of aborting the
/// batch; in a bulk run the conformant skills are not reported.
pub fn repair_all<F: Fn(&str, bool) -> Result<Option<RepairReport>, String>>(
    scope: ResourceScope,
    project_root: Option<&str>,
    name: Option<&str>,
    dry_run: bool,
    guard: Result<(), String>,
    global_lock: Result<Vec<String>, String>,
    project_lock: Result<Vec<String>, String>,
    repair: F,
) -> (r: Result<Vec<RepairReport>, ConfigError>)
    requires
        forall|n: &str, l: bool| #[trigger] repair.requires((n, l)),
    ensures
        !dry_run && guard is Err ==> (r matches Err(ConfigError::Io(m)) && m@ == "acquire the mutation lock: "@
            + guard->Err_0@),
        (dry_run || guard is Ok) && scope == ResourceScope::GlobalOnly && global_lock is Err ==> (r matches Err(
            ConfigError::Io(m),
        ) && m@ == "read the global skill lock: "@ + global_lock->Err_0@),
        (dry_run || guard is Ok) && !(scope == ResourceScope::GlobalOnly && global_lock is Err) && project_root is Some
            && project_lock is Err ==> (r matches Err(ConfigError::Io(m)) && m@ == "read the project skill lock: "@
            + project_lock->Err_0@),
        (dry_run || guard is Ok) && !(scope == ResourceScope::GlobalOnly && global_lock is Err) && !(project_root is Some
            && project_lock is Err) ==> r is Ok,
        r matches Ok(rows) ==> exists|
            names: Seq<Seq<char>>,
            results: Seq<Result<Option<RepairReport>, String>>,
            args: Seq<&str>,
        |
            #![trigger rows_from(results, names, name is None, dry_run, rows@), each_repaired(repair, scope, project_root is Some, global_lock, project_lock, names, results, args)]
            {
                &&& names.len() == results.len()
                &&& (name matches Some(n) ==> names == seq![n@])
                &&& (name is None ==> strictly_sorted(names) && forall|k: Seq<char>| #[trigger] names.contains(k) == ((
                    scope == ResourceScope::GlobalOnly && vs(global_lock->Ok_0@).contains(k)) || (project_root is Some
                    && vs(project_lock->Ok_0@).contains(k))))
                &&& rows_from(results, names, name is None, dry_run, rows@)
                &&& each_repaired(repair, scope, project_root is Some, global_lock, project_lock, names, results, args)
            },
{
    if !dry_run {
        match guard {
            Err(e) => {
                return Err(ConfigError::Io(prefixed("acquire the mutation lock: ", e.as_str())));
            },
            Ok(()) => {},
        }
    }
    let mut global_keys: Vec<String> = Vec::new();
    if scope == ResourceScope::GlobalOnly {
        match global_lock {
            Err(e) => {
                return Err(ConfigError::Io(prefixed("read the global skill lock: ", e.as_str())));
            },
            Ok(k) => {
                global_keys = k;
            },
        }
    }
    let mut project_keys: Vec<String> = Vec::new();
    match project_root {
        Some(_) => match project_lock {
            Err(e) => {
                return Err(ConfigError::Io(prefixed("read the project skill lock: ", e.as_str())));
            },
            Ok(k) => {
                project_keys = k;
            },
        },
        None => {},
    }
    let in_lock = repair_worklist(scope, project_root.is_some(), &global_keys, &project_keys);
    let worklist: Vec<String> = match name {
        Some(one) => {
            let mut w = Vec::new();
            w.push(owned(one));
            assert(vs(w@) =~= seq![one@]);
            w
        },
        None => copy_strings(&in_lock),
    };
    let ghost names = vs(worklist@);
    assert forall|k: Seq<char>| #[trigger] vs(in_lock@).contains(k) == lock_lists(
        scope,
        project_root is Some,
        global_lock,
        project_lock,
        k,
    ) by {}
    proof {
        if name is None {
            assert forall|k: Seq<char>| #[trigger] names.contains(k) == ((scope == ResourceScope::GlobalOnly
                && vs(global_lock->Ok_0@).contains(k)) || (project_root is Some && vs(
                project_lock->Ok_0@,
            ).contains(k))) by {
                assert(vs(in_lock@).contains(k) == names.contains(k));
            }
        }
    }
    let ghost names_ok: bool = (name matches Some(n) ==> names == seq![n@]) && (name is None ==> strictly_sorted(
        names,
    ) && forall|k: Seq<char>| #[trigger] names.contains(k) == ((scope == ResourceScope::GlobalOnly && vs(
        global_lock->Ok_0@,
    ).contains(k)) || (project_root is Some && vs(project_lock->Ok_0@).contains(k))));
    assert(names_ok);
    let mut reports: Vec<RepairReport> = Vec::new();
    let ghost mut results: Seq<Result<Option<RepairReport>, String>> = Seq::empty();
    let ghost mut args: Seq<&str> = Seq::empty();
    let mut i: usize = 0;
    while i < worklist.len()
        invariant
            i <= worklist.len(),
            names == vs(worklist@),
            results.len() == i,
            forall|n: &str, l: bool| #[trigger] repair.requires((n, l)),
            rows_from(results, names.take(i as int), name is None, dry_run, reports@),
            forall|k: Seq<char>| #[trigger] vs(in_lock@).contains(k) == lock_lists(
                scope,
                project_root is Some,
                global_lock,
                project_lock,
                k,
            ),
            args.len() == i,
            forall|j: int|
                0 <= j < i ==> #[trigger] args[j]@ == names[j] && repaired_one(
                    repair,
                    args[j],
                    lock_lists(scope, project_root is Some, global_lock, project_lock, names[j]),
                    results[j],
                ),
        decreases worklist.len() - i,
    {
        let skill_name = worklist[i].as_str();
        let locked = crate::removal::contains_str(&in_lock, skill_name);
        let res = repair(skill_name, locked);
        assert(repaired_one(repair, skill_name, locked, res));
        let ghost prev_rows = reports@;
        let ghost rv = res;
        match res {
            Ok(None) => {},
            Ok(Some(report)) => {
                let quiet = match report.outcome {
                    RepairOutcome::Conformant => name.is_none(),
                    _ => false,
                };
                if !quiet {
                    reports.push(report);
                }
            },
            Err(e) => {
                reports.push(failed_report(skill_name, dry_run, e));
            },
        }
        proof {
            let nr = results.push(rv);
            assert(skill_name@ == names[i as int]);
            assert(locked == lock_lists(scope, project_root is Some, global_lock, project_lock, names[i as int]));
            let na = args.push(skill_name);
            assert forall|j: int|
                0 <= j < i + 1 implies #[trigger] na[j]@ == names[j] && repaired_one(
                    repair,
                    na[j],
                    lock_lists(scope, project_root is Some, global_lock, project_lock, names[j]),
                    nr[j],
                ) by {
                if j < i {
                    assert(nr[j] == results[j]);
                    assert(na[j] == args[j]);
                } else {
                    assert(nr[j] == rv);
                    assert(na[j] == skill_name);
                }
            }
            args = na;
            assert(nr.drop_last() =~= results);
            assert(names.take(i + 1).drop_last() =~= names.take(i as int));
            assert(names.take(i + 1).last() == skill_name@);
            if reports@.len() > prev_rows.len() {
                assert(reports@.drop_last() =~= prev_rows);
            }
            results = nr;
        }
        i = i + 1;
    }
    assert(i == names.len());
    assert(forall|j: int|
        0 <= j < names.len() ==> #[trigger] args[j]@ == names[j] && repaired_one(
            repair,
            args[j],
            lock_lists(scope, project_root is Some, global_lock, project_lock, names[j]),
            results[j],
        ));
    proof {
        assert(names.take(worklist.len() as int) =~= names);
        assert(rows_from(results, names, name is None, dry_run, reports@));
    }
    let out: Result<Vec<RepairReport>, ConfigError> = Ok(reports);
    proof {
        let rows = out->Ok_0;
        assert(names_ok);
        assert(rows_from(results, names, name is None, dry_run, rows@));
        assert(names.len() == results.len());
        assert(args.len() == names.len());
        assert(args.len() == names.len());
        assert(results.len() == names.len());
        assert(forall|j: int|
            0 <= j < names.len() ==> #[trigger] args[j]@ == names[j] && repaired_one(
                repair,
                args[j],
                lock_lists(scope, project_root is Some, global_lock, project_lock, names[j]),
                results[j],
            ));
        assert(each_repaired(repair, scope, project_root is Some, global_lock, project_lock, names, results, args)) by {
            assert forall|j: int| 0 <= j < names.len() implies #[trigger] args[j]@ == names[j] && repaired_one(
                repair,
                args[j],
                lock_lists(scope, project_root is Some, global_lock, project_lock, names[j]),
                results[j],
            ) by {
                assert(0 <= j < i);
                assert(args[j]@ == names[j]);
                assert(repaired_one(repair, args[j], lock_lists(scope, project_root is Some, global_lock, project_lock, names[j]), results[j]));
            }
        }
    }
    out
}

/// Every skill's repair either found nothing to repair or was conformant.
pub open spec fn all_conformant(results: Seq<Result<Option<RepairReport>, String>>) -> bool {
    forall|i: int|
        0 <= i < results.len() ==> (#[trigger] results[i] matches Ok(None)) || (results[i] matches Ok(Some(rep))
            && rep.outcome is Conformant)
}

/// A bulk run in which every skill is already conformant reports nothing:
/// so a second bulk run over skills the first one repaired, each now
/// conformant, gives no rows.
pub proof fn lemma_conformant_bulk_reports_nothing(
    results: Seq<Result<Option<RepairReport>, String>>,
    names: Seq<Seq<char>>,
    dry_run: bool,
    rows: Seq<RepairReport>,
)
    requires
        all_conformant(results),
        rows_from(results, names, true, dry_run, rows),
    ensures
        rows.len() == 0,
    decreases results.len(),
{
    if results.len() > 0 {
        let prev = results.drop_last();
        assert forall|i: int| 0 <= i < prev.len() implies (#[trigger] prev[i] matches Ok(None)) || (
        prev[i] matches Ok(Some(rep)) && rep.outcome is Conformant) by {
            assert(prev[i] == results[i]);
        }
        assert(results.last() == results[results.len() - 1]);
        lemma_conformant_bulk_reports_nothing(prev, names.drop_last(), dry_run, rows);
    }
}

} // verus!
