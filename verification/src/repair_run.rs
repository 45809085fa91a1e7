//! Applying a repair plan: the report a repair gives and the writes it
//! makes, in their crash-safe order.
//!
//! Every refusal and every fork comparison is settled before the first
//! write. Then, in order: the Master is copied out of the slot it is
//! adopted from (copied, never renamed), this agent's private Referrers are
//! linked, the shared slot is swapped for a link last (the only destructive
//! step, moving the old directory into quarantine), and stale compat
//! Referrers are detached after that. A dry run reports the same verdict
//! and writes nothing.

use vstd::prelude::*;

use crate::paths::{join, join_spec, parent, parent_spec};
use crate::removal::vs;
use crate::repair::{
    describe, describe_spec, fix_for, fix_spec, fork_refusal, fork_refusal_spec, Comparison, RefuseReason,
    RepairOutcome, RepairReport,
};
use crate::text::{owned, str_eq};

verus! {

/// What a repair does with one slot.
#[derive(Debug, Clone, Copy, PartialEq, Eq, Structural)]
pub enum ReferrerAction {
    /// Already right: nothing to do.
    Leave,
    /// Create the agent's Referrer.
    Create,
    /// Repoint a Referrer that points elsewhere.
    Relink,
    /// A real copy in the slot: compare it with the Master, then quarantine it.
    CompareThenQuarantine,
    /// A stale Referrer in a dir the agent only reads: detach it.
    Unlink,
}

/// One slot of a repair plan.
#[derive(Debug)]
pub struct SlotAction {
    pub path: String,
    pub action: ReferrerAction,
    /// Several agents read the skill through this one slot.
    pub shared: bool,
    /// The agents that read through it.
    pub agents: Vec<String>,
}

/// A repair plan, as the planner decided it.
#[derive(Debug)]
pub struct RepairPlan {
    pub name: String,
    pub master: String,
    pub actions: Vec<SlotAction>,
    /// The first refusal among the slots: the slot it is about, and why.
    pub refusal: Option<(String, RefuseReason)>,
    /// The slot whose real directory is adopted as the Master, if any.
    pub adopts: Option<String>,
}

/// One write of a repair, in the order they are made.
#[derive(Debug, PartialEq, Eq)]
pub enum RepairWrite {
    /// Copy the adopted slot into the Master path (unless the Master is
    /// there by now); a failed copy removes what it left.
    CopyMaster { from: String, to: String },
    /// Link `at` to the Master, replacing a stale link there.
    LinkReferrer { at: String },
    /// Replace the real directory at `slot` by a link to the Master, moving
    /// the directory to `quarantine`.
    SwapSlot { slot: String, quarantine: String },
    /// Re-check the compat Referrer at `at`, and detach it if still allowed.
    Unlink { at: String },
}

/// A repair's report, and the writes that carry it out (none for a dry run
/// or a refusal). For a real run the report lists no detached Referrers
/// yet: only those the `Unlink` writes really removed are added, by
/// [`record_unlinks`].
#[derive(Debug)]
pub struct RepairRun {
    pub report: RepairReport,
    pub writes: Vec<RepairWrite>,
}

/// Which slots one step of a repair touches.
#[derive(Debug, Clone, Copy, PartialEq, Eq, Structural)]
pub enum Step {
    /// Forks to compare with the Master.
    Forks,
    /// Referrers to link (created or repointed).
    Links,
    /// Referrers that are repointed.
    Relinks,
    /// Slots swapped for a link: forks, and the slot the Master is adopted from.
    Swaps,
    /// Compat Referrers to detach.
    Unlinks,
}

pub open spec fn in_step(step: Step, adopts: Option<Seq<char>>, a: SlotAction) -> bool {
    match step {
        Step::Forks => a.action == ReferrerAction::CompareThenQuarantine,
        Step::Links => a.action == ReferrerAction::Create || a.action == ReferrerAction::Relink,
        Step::Relinks => a.action == ReferrerAction::Relink,
        Step::Swaps => a.action == ReferrerAction::CompareThenQuarantine || adopts == Some(a.path@),
        Step::Unlinks => a.action == ReferrerAction::Unlink,
    }
}

/// The paths of the slots a step touches, in plan order.
pub open spec fn step_paths(actions: Seq<SlotAction>, step: Step, adopts: Option<Seq<char>>) -> Seq<Seq<char>>
    decreases actions.len(),
{
    if actions.len() == 0 {
        Seq::empty()
    } else {
        let rest = step_paths(actions.drop_last(), step, adopts);
        if in_step(step, adopts, actions.last()) {
            rest.push(actions.last().path@)
        } else {
            rest
        }
    }
}

/// The agents that still share one slot: those of every shared slot.
pub open spec fn fused_agents(actions: Seq<SlotAction>) -> Seq<Seq<char>>
    decreases actions.len(),
{
    if actions.len() == 0 {
        Seq::empty()
    } else {
        let rest = fused_agents(actions.drop_last());
        if actions.last().shared {
            rest + vs(actions.last().agents@)
        } else {
            rest
        }
    }
}

/// A fork's comparison settled it: it was compared and is equal. A fork
/// with no comparison counts as diverged.
pub open spec fn settled(cs: Seq<Comparison>, i: int) -> bool {
    i < cs.len() && cs[i] is Equal
}

/// The first of the first `n` forks that is not settled.
pub open spec fn first_unsettled(cs: Seq<Comparison>, n: int) -> Option<int>
    decreases n,
{
    if n <= 0 {
        None
    } else {
        match first_unsettled(cs, n - 1) {
            Some(i) => Some(i),
            None => if settled(cs, n - 1) {
                None
            } else {
                Some(n - 1)
            },
        }
    }
}

pub open spec fn comparison_at(cs: Seq<Comparison>, i: int) -> Comparison {
    if 0 <= i < cs.len() {
        cs[i]
    } else {
        Comparison::Diverged
    }
}

/// `<parent of master>/.quarantine/<name>/<stamp>`: inside the store, where
/// the store scan does not look.
pub open spec fn quarantine_spec(master: Seq<char>, name: Seq<char>, stamp: Seq<char>) -> Seq<char> {
    let base = match parent_spec(master) {
        Some(p) => p,
        None => master,
    };
    join_spec(join_spec(join_spec(base, ".quarantine"@), name), stamp)
}

/// The outcome of a repair that was not refused: adopting the Master is a
/// migration; else repointing a Referrer a relink; else quarantining a
/// fork a reconciliation; else (in a dry run) detaching a compat Referrer a
/// tidy-up; else nothing needed doing.
pub open spec fn run_outcome(plan: RepairPlan, dry_run: bool) -> RepairOutcome {
    let acts = plan.actions@;
    let ad = crate::models::opt_view(plan.adopts);
    if plan.adopts is Some {
        RepairOutcome::Migrated
    } else if step_paths(acts, Step::Relinks, ad).len() > 0 {
        RepairOutcome::Relinked
    } else if step_paths(acts, Step::Forks, ad).len() > 0 {
        RepairOutcome::Reconciled
    } else if dry_run && step_paths(acts, Step::Unlinks, ad).len() > 0 {
        RepairOutcome::Tidied
    } else {
        RepairOutcome::Conformant
    }
}

/// `q` is a quarantine dir of `name` beside `master`, under some stamp.
pub open spec fn is_quarantine_of(q: Seq<char>, master: Seq<char>, name: Seq<char>) -> bool {
    exists|stamp: Seq<char>| q == #[trigger] quarantine_spec(master, name, stamp)
}

/// The writes of a real run, in order.
pub open spec fn run_writes(plan: RepairPlan, writes: Seq<RepairWrite>) -> bool {
    let acts = plan.actions@;
    let ad = crate::models::opt_view(plan.adopts);
    let links = step_paths(acts, Step::Links, ad);
    let swaps = step_paths(acts, Step::Swaps, ad);
    let unlinks = step_paths(acts, Step::Unlinks, ad);
    let c: int = if plan.adopts is Some {
        1
    } else {
        0
    };
    &&& writes.len() == c + links.len() + swaps.len() + unlinks.len()
    &&& plan.adopts matches Some(from) ==> (writes[0] matches RepairWrite::CopyMaster { from: f, to: t } && f@
        == from@ && t@ == plan.master@)
    &&& forall|i: int| 0 <= i < links.len() ==> (#[trigger] writes[c + i] matches RepairWrite::LinkReferrer { at }
        && at@ == links[i])
    &&& forall|i: int| 0 <= i < swaps.len() ==> (#[trigger] writes[c + links.len() + i] matches RepairWrite::SwapSlot {
        slot,
        quarantine: q,
    } && slot@ == swaps[i] && is_quarantine_of(q@, plan.master@, plan.name@))
    &&& forall|i: int| 0 <= i < unlinks.len() ==> (#[trigger] writes[c + links.len() + swaps.len() + i] matches RepairWrite::Unlink { at } && at@ == unlinks[i])
}

fn copy_strings(v: &Vec<String>) -> (r: Vec<String>)
    ensures
        vs(r@) == vs(v@),
{
    let mut out: Vec<String> = Vec::new();
    let mut i: usize = 0;
    while i < v.len()
        invariant
            i <= v.len(),
            vs(out@) == vs(v@).take(i as int),
        decreases v.len() - i,
    {
        let ghost before = vs(out@);
        let x = v[i].clone();
        let ghost xv = x@;
        out.push(x);
        assert(vs(out@) =~= before.push(xv));
        assert(vs(v@).take(i + 1) =~= vs(v@).take(i as int).push(xv));
        i = i + 1;
    }
    assert(vs(v@).take(v.len() as int) =~= vs(v@));
    out
}

fn in_step_exec(step: Step, adopts: Option<&str>, a: &SlotAction) -> (r: bool)
    ensures
        r == in_step(
            step,
            match adopts {
                Some(s) => Some(s@),
                None => None,
            },
            *a,
        ),
{
    match step {
        Step::Forks => a.action == ReferrerAction::CompareThenQuarantine,
        Step::Links => a.action == ReferrerAction::Create || a.action == ReferrerAction::Relink,
        Step::Relinks => a.action == ReferrerAction::Relink,
        Step::Swaps => a.action == ReferrerAction::CompareThenQuarantine || match adopts {
            Some(p) => str_eq(p, a.path.as_str()),
            None => false,
        },
        Step::Unlinks => a.action == ReferrerAction::Unlink,
    }
}

/// The paths of the slots `step` touches, in plan order.
pub fn step_paths_of(actions: &Vec<SlotAction>, step: Step, adopts: Option<&str>) -> (out: Vec<String>)
    ensures
        vs(out@) == step_paths(
            actions@,
            step,
            match adopts {
                Some(s) => Some(s@),
                None => None,
            },
        ),
{
    let ghost ad = match adopts {
        Some(s) => Some(s@),
        None => None,
    };
    let mut out: Vec<String> = Vec::new();
    let mut i: usize = 0;
    assert(actions@.take(0) =~= Seq::<SlotAction>::empty());
    while i < actions.len()
        invariant
            i <= actions.len(),
            ad == match adopts {
                Some(s) => Some(s@),
                None => None,
            },
            vs(out@) == step_paths(actions@.take(i as int), step, ad),
        decreases actions.len() - i,
    {
        assert(actions@.take(i + 1).drop_last() =~= actions@.take(i as int));
        let a = &actions[i];
        if in_step_exec(step, adopts, a) {
            let ghost before = vs(out@);
            let p = a.path.clone();
            let ghost pv = p@;
            out.push(p);
            assert(vs(out@) =~= before.push(pv));
        }
        i = i + 1;
    }
    assert(actions@.take(actions.len() as int) =~= actions@);
    out
}

fn fused_of(actions: &Vec<SlotAction>) -> (out: Vec<String>)
    ensures
        vs(out@) == fused_agents(actions@),
{
    let mut out: Vec<String> = Vec::new();
    let mut i: usize = 0;
    assert(actions@.take(0) =~= Seq::<SlotAction>::empty());
    while i < actions.len()
        invariant
            i <= actions.len(),
            vs(out@) == fused_agents(actions@.take(i as int)),
        decreases actions.len() - i,
    {
        assert(actions@.take(i + 1).drop_last() =~= actions@.take(i as int));
        if actions[i].shared {
            let ghost before = vs(out@);
            let more = copy_strings(&actions[i].agents);
            let mut j: usize = 0;
            while j < more.len()
                invariant
                    j <= more.len(),
                    vs(out@) == before + vs(more@).take(j as int),
                decreases more.len() - j,
            {
                let ghost mid = vs(out@);
                let x = more[j].clone();
                let ghost xv = x@;
                out.push(x);
                assert(vs(out@) =~= mid.push(xv));
                assert(before + vs(more@).take(j + 1) =~= (before + vs(more@).take(j as int)).push(xv));
                j = j + 1;
            }
            assert(vs(more@).take(more.len() as int) =~= vs(more@));
        }
        i = i + 1;
    }
    assert(actions@.take(actions.len() as int) =~= actions@);
    out
}

/// The first fork, among `n`, whose comparison does not settle it.
fn first_unsettled_of(cs: &Vec<Comparison>, n: usize) -> (r: Option<usize>)
    ensures
        match first_unsettled(cs@, n as int) {
            None => r is None,
            Some(i) => r matches Some(k) && k == i,
        },
        r matches Some(i) ==> i < n,
{
    let mut i: usize = 0;
    while i < n
        invariant
            i <= n,
            first_unsettled(cs@, i as int) is None,
        decreases n - i,
    {
        let ok = i < cs.len() && match cs[i] {
            Comparison::Equal => true,
            _ => false,
        };
        if !ok {
            assert(first_unsettled(cs@, i + 1) == Some(i as int));
            proof {
                lemma_first_unsettled_stays(cs@, i + 1, n as int);
            }
            return Some(i);
        }
        i = i + 1;
    }
    None
}

proof fn lemma_first_unsettled_is(cs: Seq<Comparison>, n: int, i: int)
    requires
        first_unsettled(cs, n) == Some(i),
    ensures
        0 <= i < n,
        !settled(cs, i),
    decreases n,
{
    if n > 0 {
        match first_unsettled(cs, n - 1) {
            Some(j) => {
                lemma_first_unsettled_is(cs, n - 1, i);
            },
            None => {},
        }
    }
}

proof fn lemma_first_unsettled_stays(cs: Seq<Comparison>, m: int, n: int)
    requires
        0 <= m <= n,
        first_unsettled(cs, m) is Some,
    ensures
        first_unsettled(cs, n) == first_unsettled(cs, m),
    decreases n - m,
{
    if m < n {
        lemma_first_unsettled_stays(cs, m, n - 1);
    }
}

fn quarantine_dir(master: &str, name: &str, stamp: &str) -> (r: String)
    ensures
        r@ == quarantine_spec(master@, name@, stamp@),
{
    let base = match parent(master) {
        Some(p) => p,
        None => owned(master),
    };
    let a = join(base.as_str(), ".quarantine");
    proof {
        reveal_strlit(".quarantine");
    }
    let b = join(a.as_str(), name);
    join(b.as_str(), stamp)
}

/// Decide a repair from its plan: its report and the writes that carry it
/// out. `comparisons` are the comparisons of the plan's forks (its
/// compare-then-quarantine slots) with the Master, in plan order; `stamp`
/// gives each swap the stamp of its quarantine dir (the time). A refusal of
/// the plan, then a fork
/// that is not equal, refuses the repair before any write.
pub fn execute_repair<S: Fn() -> String>(plan: &RepairPlan, comparisons: &Vec<Comparison>, dry_run: bool, stamp: S) -> (run:
    RepairRun)
    requires
        stamp.requires(()),
    ensures
        run.report.name@ == plan.name@,
        run.report.master@ == plan.master@,
        run.report.dry_run == dry_run,
        vs(run.report.fused@) == fused_agents(plan.actions@),
        match plan.refusal {
            Some((at, reason)) => {
                &&& run.report.outcome matches RepairOutcome::Refused { reason: x, fix: y }
                &&& x@ == describe_spec(reason, at@) && y@ == fix_spec(reason, at@, plan.name@)
                &&& run.report.referrers@.len() == 0 && run.report.unlinked@.len() == 0
                &&& run.report.quarantined is None
                &&& run.writes@.len() == 0
            },
            None => {
                let ad = crate::models::opt_view(plan.adopts);
                let forks = step_paths(plan.actions@, Step::Forks, ad);
                match first_unsettled(comparisons@, forks.len() as int) {
                    Some(i) => {
                        &&& fork_refusal_spec(forks[i], plan.master@, plan.name@, comparison_at(comparisons@, i))
                            matches Some((reason, fix))
                        &&& run.report.outcome matches RepairOutcome::Refused { reason: x, fix: y }
                        &&& x@ == reason && y@ == fix
                        &&& run.report.referrers@.len() == 0 && run.report.unlinked@.len() == 0
                        &&& run.report.quarantined is None
                        &&& run.writes@.len() == 0
                    },
                    None => {
                        let links = step_paths(plan.actions@, Step::Links, ad);
                        let swaps = step_paths(plan.actions@, Step::Swaps, ad);
                        let c: int = if plan.adopts is Some {
                            1
                        } else {
                            0
                        };
                        &&& run.report.outcome == run_outcome(*plan, dry_run)
                        &&& vs(run.report.referrers@) == step_paths(plan.actions@, Step::Links, ad) + swaps
                        &&& (if swaps.len() > 0 {
                            run.report.quarantined matches Some(d) && is_quarantine_of(d@, plan.master@, plan.name@)
                                && (!dry_run ==> (run.writes@[c + links.len() + swaps.len() - 1] matches RepairWrite::SwapSlot {
                                quarantine: q,
                                ..
                            } && q == d))
                        } else {
                            run.report.quarantined is None
                        })
                        &&& vs(run.report.unlinked@) == (if dry_run {
                            step_paths(plan.actions@, Step::Unlinks, ad)
                        } else {
                            Seq::empty()
                        })
                        &&& (if dry_run {
                            run.writes@.len() == 0
                        } else {
                            run_writes(*plan, run.writes@)
                        })
                    },
                }
            },
        },
{
    let adopts: Option<&str> = match &plan.adopts {
        Some(a) => Some(a.as_str()),
        None => None,
    };
    let ghost ad = crate::models::opt_view(plan.adopts);
    assert(ad == match adopts {
        Some(s) => Some(s@),
        None => None,
    });
    let fused = fused_of(&plan.actions);
    let master = plan.master.clone();
    let name = plan.name.clone();
    let refused = |outcome: RepairOutcome| -> (r: RepairRun)
        ensures
            r.report.outcome == outcome,
            r.report.name@ == plan.name@,
            r.report.master@ == plan.master@,
            r.report.dry_run == dry_run,
            r.report.referrers@.len() == 0,
            r.report.unlinked@.len() == 0,
            r.report.quarantined is None,
            r.writes@.len() == 0,
    {
        RepairRun {
            report: RepairReport {
                name: plan.name.clone(),
                outcome,
                master: plan.master.clone(),
                referrers: Vec::new(),
                unlinked: Vec::new(),
                quarantined: None,
                fused: Vec::new(),
                dry_run,
            },
            writes: Vec::new(),
        }
    };
    // 1. A refusal blocks the whole plan, before any write.
    match &plan.refusal {
        Some((at, reason)) => {
            let outcome = RepairOutcome::Refused {
                reason: describe(reason, at.as_str()),
                fix: fix_for(reason, at.as_str(), plan.name.as_str()),
            };
            let mut run = refused(outcome);
            run.report.fused = fused;
            return run;
        },
        None => {},
    }
    // 2. Every fork is compared before anything is written.
    let forks = step_paths_of(&plan.actions, Step::Forks, adopts);
    match first_unsettled_of(comparisons, forks.len()) {
        Some(i) => {
            let c = if i < comparisons.len() {
                match &comparisons[i] {
                    Comparison::Equal => Comparison::Equal,
                    Comparison::Diverged => Comparison::Diverged,
                    Comparison::Undecidable(why) => Comparison::Undecidable(why.clone()),
                }
            } else {
                Comparison::Diverged
            };
            assert(c == comparison_at(comparisons@, i as int));
            proof {
                lemma_first_unsettled_is(comparisons@, forks.len() as int, i as int);
            }
            let outcome = match fork_refusal(forks[i].as_str(), plan.master.as_str(), plan.name.as_str(), &c) {
                Some(o) => o,
                None => {
                    assert(false);
                    RepairOutcome::Conformant
                },
            };
            let mut run = refused(outcome);
            run.report.fused = fused;
            return run;
        },
        None => {},
    }
    let links = step_paths_of(&plan.actions, Step::Links, adopts);
    let relinks = step_paths_of(&plan.actions, Step::Relinks, adopts);
    let swaps = step_paths_of(&plan.actions, Step::Swaps, adopts);
    let unlinks = step_paths_of(&plan.actions, Step::Unlinks, adopts);
    let outcome = if adopts.is_some() {
        RepairOutcome::Migrated
    } else if relinks.len() > 0 {
        RepairOutcome::Relinked
    } else if forks.len() > 0 {
        RepairOutcome::Reconciled
    } else if dry_run && unlinks.len() > 0 {
        RepairOutcome::Tidied
    } else {
        RepairOutcome::Conformant
    };
    let mut referrers: Vec<String> = Vec::new();
    let mut writes: Vec<RepairWrite> = Vec::new();
    // 3. The Master first, copied out of the slot it is adopted from.
    if !dry_run {
        match adopts {
            Some(from) => {
                writes.push(RepairWrite::CopyMaster { from: owned(from), to: plan.master.clone() });
            },
            None => {},
        }
    }
    let ghost c: int = if plan.adopts is Some {
        1
    } else {
        0
    };
    // 4. Then the private Referrers: additive, so a crash here loses nothing.
    let mut i: usize = 0;
    while i < links.len()
        invariant
            i <= links.len(),
            vs(referrers@) == vs(links@).take(i as int),
            dry_run ==> writes@.len() == 0,
            c == (if plan.adopts is Some {
                1int
            } else {
                0int
            }),
            !dry_run ==> writes@.len() == c + i,
            !dry_run && plan.adopts is Some ==> (writes@[0] matches RepairWrite::CopyMaster { from: f, to: t } && f@
                == plan.adopts->Some_0@ && t@ == plan.master@),
            !dry_run ==> forall|k: int| 0 <= k < i ==> (#[trigger] writes@[c + k] matches RepairWrite::LinkReferrer {
                at,
            } && at@ == vs(links@)[k]),
        decreases links.len() - i,
    {
        let ghost before = vs(referrers@);
        referrers.push(links[i].clone());
        assert(vs(referrers@) =~= before.push(links@[i as int]@));
        assert(vs(links@).take(i + 1) =~= vs(links@).take(i as int).push(links@[i as int]@));
        if !dry_run {
            writes.push(RepairWrite::LinkReferrer { at: links[i].clone() });
        }
        i = i + 1;
    }
    assert(vs(links@).take(links.len() as int) =~= vs(links@));
    // 5. The shared slot last: the only destructive step.
    let mut quarantined: Option<String> = None;
    let mut j: usize = 0;
    while j < swaps.len()
        invariant
            j <= swaps.len(),
            stamp.requires(()),
            vs(referrers@) == vs(links@) + vs(swaps@).take(j as int),
            c == (if plan.adopts is Some {
                1int
            } else {
                0int
            }),
            dry_run ==> writes@.len() == 0,
            !dry_run ==> writes@.len() == c + links.len() + j,
            !dry_run && plan.adopts is Some ==> (writes@[0] matches RepairWrite::CopyMaster { from: f, to: t } && f@
                == plan.adopts->Some_0@ && t@ == plan.master@),
            !dry_run ==> forall|k: int| 0 <= k < links.len() ==> (#[trigger] writes@[c + k] matches RepairWrite::LinkReferrer {
                at,
            } && at@ == vs(links@)[k]),
            !dry_run ==> forall|k: int| 0 <= k < j ==> (#[trigger] writes@[c + links.len() + k] matches RepairWrite::SwapSlot {
                slot,
                quarantine: q,
            } && slot@ == vs(swaps@)[k] && is_quarantine_of(q@, plan.master@, plan.name@)),
            j == 0 ==> quarantined is None,
            j > 0 ==> (quarantined matches Some(d) && is_quarantine_of(d@, plan.master@, plan.name@) && (!dry_run
                ==> (writes@[c + links.len() + j - 1] matches RepairWrite::SwapSlot { quarantine: q, .. } && q == d))),
        decreases swaps.len() - j,
    {
        let ghost before = vs(referrers@);
        referrers.push(swaps[j].clone());
        assert(vs(referrers@) =~= before.push(swaps@[j as int]@));
        assert(vs(links@) + vs(swaps@).take(j + 1) =~= (vs(links@) + vs(swaps@).take(j as int)).push(
            swaps@[j as int]@,
        ));
        let st = stamp();
        let dest = quarantine_dir(plan.master.as_str(), plan.name.as_str(), st.as_str());
        assert(dest@ == quarantine_spec(plan.master@, plan.name@, st@));
        if !dry_run {
            writes.push(RepairWrite::SwapSlot { slot: swaps[j].clone(), quarantine: dest.clone() });
        }
        quarantined = Some(dest);
        j = j + 1;
    }
    assert(vs(swaps@).take(swaps.len() as int) =~= vs(swaps@));
    // 6. Stale compat Referrers last: until now they may be the agent's only link.
    let mut unlinked: Vec<String> = Vec::new();
    let mut k: usize = 0;
    while k < unlinks.len()
        invariant
            k <= unlinks.len(),
            dry_run ==> vs(unlinked@) == vs(unlinks@).take(k as int),
            !dry_run ==> unlinked@.len() == 0,
            dry_run ==> writes@.len() == 0,
            c == (if plan.adopts is Some {
                1int
            } else {
                0int
            }),
            !dry_run ==> writes@.len() == c + links.len() + swaps.len() + k,
            !dry_run && plan.adopts is Some ==> (writes@[0] matches RepairWrite::CopyMaster { from: f, to: t } && f@
                == plan.adopts->Some_0@ && t@ == plan.master@),
            !dry_run ==> forall|m: int| 0 <= m < links.len() ==> (#[trigger] writes@[c + m] matches RepairWrite::LinkReferrer {
                at,
            } && at@ == vs(links@)[m]),
            !dry_run ==> forall|m: int| 0 <= m < swaps.len() ==> (#[trigger] writes@[c + links.len() + m] matches RepairWrite::SwapSlot {
                slot,
                quarantine: q,
            } && slot@ == vs(swaps@)[m] && is_quarantine_of(q@, plan.master@, plan.name@)),
            swaps.len() == 0 ==> quarantined is None,
            swaps.len() > 0 ==> (quarantined matches Some(d) && is_quarantine_of(d@, plan.master@, plan.name@) && (
            !dry_run ==> (writes@[c + links.len() + swaps.len() - 1] matches RepairWrite::SwapSlot {
                quarantine: q,
                ..
            } && q == d))),
            !dry_run ==> forall|m: int| 0 <= m < k ==> (#[trigger] writes@[c + links.len() + swaps.len() + m] matches RepairWrite::Unlink {
                at,
            } && at@ == vs(unlinks@)[m]),
        decreases unlinks.len() - k,
    {
        if dry_run {
            let ghost before = vs(unlinked@);
            unlinked.push(unlinks[k].clone());
            assert(vs(unlinked@) =~= before.push(unlinks@[k as int]@));
            assert(vs(unlinks@).take(k + 1) =~= vs(unlinks@).take(k as int).push(unlinks@[k as int]@));
        } else {
            writes.push(RepairWrite::Unlink { at: unlinks[k].clone() });
        }
        k = k + 1;
    }
    assert(vs(unlinks@).take(unlinks.len() as int) =~= vs(unlinks@));
    RepairRun {
        report: RepairReport {
            name,
            outcome,
            master,
            referrers,
            unlinked,
            quarantined,
            fused,
            dry_run,
        },
        writes,
    }
}

/// Add to a real run's report the compat Referrers its `Unlink` writes
/// really removed, in order: only a removal this run made is reported, and
/// one turns an otherwise conformant repair into a tidy-up.
pub fn record_unlinks(report: RepairReport, removed: &Vec<String>) -> (r: RepairReport)
    ensures
        r.name == report.name,
        r.master == report.master,
        r.referrers == report.referrers,
        r.quarantined == report.quarantined,
        r.fused == report.fused,
        r.dry_run == report.dry_run,
        vs(r.unlinked@) == vs(report.unlinked@) + vs(removed@),
        r.outcome == if report.outcome is Conformant && removed@.len() > 0 {
            RepairOutcome::Tidied
        } else {
            report.outcome
        },
{
    let mut out = report;
    let ghost start = vs(out.unlinked@);
    let mut i: usize = 0;
    if removed.len() > 0 {
        let conformant = match out.outcome {
            RepairOutcome::Conformant => true,
            _ => false,
        };
        if conformant {
            out.outcome = RepairOutcome::Tidied;
        }
    }
    while i < removed.len()
        invariant
            i <= removed.len(),
            vs(out.unlinked@) == start + vs(removed@).take(i as int),
            out.name == report.name,
            out.master == report.master,
            out.referrers == report.referrers,
            out.quarantined == report.quarantined,
            out.fused == report.fused,
            out.dry_run == report.dry_run,
            out.outcome == if report.outcome is Conformant && removed@.len() > 0 {
                RepairOutcome::Tidied
            } else {
                report.outcome
            },
        decreases removed.len() - i,
    {
        let ghost before = vs(out.unlinked@);
        out.unlinked.push(removed[i].clone());
        assert(vs(out.unlinked@) =~= before.push(removed@[i as int]@));
        assert(start + vs(removed@).take(i + 1) =~= (start + vs(removed@).take(i as int)).push(removed@[i as int]@));
        i = i + 1;
    }
    assert(vs(removed@).take(removed.len() as int) =~= vs(removed@));
    out
}

/// A dry run predicts the real run's outcome: once every compat Referrer
/// the real run detaches is recorded, its outcome is the dry run's.
pub proof fn lemma_dry_run_predicts_outcome(plan: RepairPlan, removed: Seq<Seq<char>>)
    requires
        removed == step_paths(plan.actions@, Step::Unlinks, crate::models::opt_view(plan.adopts)),
    ensures
        (if run_outcome(plan, false) is Conformant && removed.len() > 0 {
            RepairOutcome::Tidied
        } else {
            run_outcome(plan, false)
        }) == run_outcome(plan, true),
{
}

/// A plan with nothing left to do: no refusal, no Master to adopt, and
/// every slot already right.
pub open spec fn settled_plan(plan: RepairPlan) -> bool {
    &&& plan.refusal is None
    &&& plan.adopts is None
    &&& forall|i: int| 0 <= i < plan.actions@.len() ==> (#[trigger] plan.actions@[i]).action == ReferrerAction::Leave
}

proof fn lemma_leave_touches_nothing(actions: Seq<SlotAction>, step: Step)
    requires
        forall|i: int| 0 <= i < actions.len() ==> (#[trigger] actions[i]).action == ReferrerAction::Leave,
    ensures
        step_paths(actions, step, None).len() == 0,
    decreases actions.len(),
{
    if actions.len() > 0 {
        let t = actions.drop_last();
        assert forall|i: int| 0 <= i < t.len() implies (#[trigger] t[i]).action == ReferrerAction::Leave by {
            assert(t[i] == actions[i]);
        }
        lemma_leave_touches_nothing(t, step);
        assert(actions.last() == actions[actions.len() - 1]);
    }
}

/// Repairing a skill whose plan has nothing left to do (what a repair
/// leaves behind once its Master is in the store and every slot links to
/// it) is conformant, dry run or not: it touches no slot.
pub proof fn lemma_settled_plan_is_conformant(plan: RepairPlan, dry_run: bool)
    requires
        settled_plan(plan),
    ensures
        run_outcome(plan, dry_run) is Conformant,
        forall|step: Step| #[trigger] step_paths(plan.actions@, step, None).len() == 0,
{
    assert forall|step: Step| #[trigger] step_paths(plan.actions@, step, None).len() == 0 by {
        lemma_leave_touches_nothing(plan.actions@, step);
    }
    lemma_leave_touches_nothing(plan.actions@, Step::Relinks);
    lemma_leave_touches_nothing(plan.actions@, Step::Forks);
    lemma_leave_touches_nothing(plan.actions@, Step::Unlinks);
}

} // verus!
