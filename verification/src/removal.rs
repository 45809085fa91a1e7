//! Layout-aware removal planning and the containment guard.
//!
//! Every filesystem observation a decision needs (an `lstat`, a
//! `canonicalize`, a directory listing) is taken by the caller and handed in
//! as a plain value; the functions here decide.

use vstd::prelude::*;

use crate::paths::{agents_skills_under, config_dir, home_dir, join, join_spec, path_within, strictly_within, within};
use crate::models::ResourceScope;
use crate::prune::{prune_lock_for_scope, scope_prune_allowed, scope_reconciled, PruneError, PruneScope};
use crate::text::{owned, str_eq, string_from};

verus! {

/// On-disk layout of an installed skill, deciding how it is removed.
#[derive(Debug, Clone, Copy, PartialEq, Eq, Structural)]
pub enum Layout {
    /// A canonical dir plus per-agent links resolving to it.
    Symlink,
    /// Independent per-agent copies (no `canonical_path`).
    Copy,
}

/// What a removal WOULD touch, produced without deleting anything.
#[derive(Debug)]
pub struct RemovalPlan {
    pub layout: Layout,
    /// Paths that would be removed (links unlinked, dirs removed).
    pub paths: Vec<String>,
    /// Paths intentionally NOT removed.
    pub skipped: Vec<String>,
    /// Destructive execution needs an explicit confirm flag.
    pub needs_confirm: bool,
    /// The targeted removal resolved to the SHARED universal Master and was
    /// refused.
    pub shared_master_kept: bool,
}

/// Outcome of the post-delete lock prune attached to a [`RemovalOutcome`].
#[derive(Debug, PartialEq, Eq)]
pub enum PruneStatus {
    /// No prune attempted (dry-run / nothing executed).
    NotRun,
    /// Prune ran; the pruned lock keys (empty = nothing orphaned).
    Pruned(Vec<String>),
    /// Prune attempted but failed; `pruned` lists keys already dropped.
    Failed { reason: String, pruned: Vec<String> },
    /// A preview: the keys a committed delete would drop.
    WouldPrune(Vec<String>),
}

impl Default for PruneStatus {
    fn default() -> (r: Self)
        ensures
            r is NotRun,
    {
        PruneStatus::NotRun
    }
}

/// Result of a planned removal request.
#[derive(Debug)]
pub struct RemovalOutcome {
    pub plan: RemovalPlan,
    pub executed: bool,
    pub prune: PruneStatus,
    /// Paths the executing removal tried and failed to delete.
    pub failed_paths: Vec<String>,
    /// The resource was already gone.
    pub absent: bool,
}

/// What `execute_removal` actually did on disk.
#[derive(Debug)]
pub struct RemovalReport {
    pub removed: Vec<String>,
    /// Dirs refused at delete time because they escaped the allow-list.
    pub skipped: Vec<String>,
    /// Paths whose deletion failed, with the reason.
    pub failed: Vec<(String, String)>,
}

/// Why a SINGLE-agent removal must keep a skill folder.
#[derive(Debug, PartialEq, Eq)]
pub enum KeepReason {
    /// The dir is a shared universal Master.
    UniversalMaster,
    /// Another in-scope agent's link resolves into it (that link).
    ExternalReferrer(String),
}

impl RemovalOutcome {
    /// Idempotent-delete no-op: nothing on disk to remove.
    pub fn noop() -> (r: Self)
        ensures
            !r.executed,
            r.absent,
            r.plan.layout == Layout::Copy,
            r.plan.paths@.len() == 0,
            r.plan.skipped@.len() == 0,
            !r.plan.needs_confirm,
            !r.plan.shared_master_kept,
            r.prune is NotRun,
            r.failed_paths@.len() == 0,
    {
        RemovalOutcome {
            plan: RemovalPlan {
                layout: Layout::Copy,
                paths: Vec::new(),
                skipped: Vec::new(),
                needs_confirm: false,
                shared_master_kept: false,
            },
            executed: false,
            prune: PruneStatus::NotRun,
            failed_paths: Vec::new(),
            absent: true,
        }
    }
}

/// The universal-Master stores: `<config>/agents/skills`,
/// `~/.config/agents/skills`, `~/.agents/skills` and `<project>/.agents/skills`,
/// each present when its base is known.
pub open spec fn master_roots_spec(
    config: Option<Seq<char>>,
    home: Option<Seq<char>>,
    project_root: Option<Seq<char>>,
) -> Seq<Seq<char>> {
    let a: Seq<Seq<char>> = match config {
        Some(c) => seq![join_spec(join_spec(c, "agents"@), "skills"@)],
        None => Seq::empty(),
    };
    let b: Seq<Seq<char>> = match home {
        Some(h) => a + seq![
            join_spec(join_spec(join_spec(h, ".config"@), "agents"@), "skills"@),
            agents_skills_under(h),
        ],
        None => a,
    };
    match project_root {
        Some(r) => b.push(agents_skills_under(r)),
        None => b,
    }
}

/// The views of a sequence of strings.
pub open spec fn vs(v: Seq<String>) -> Seq<Seq<char>> {
    crate::table::views(v)
}

/// The view of an optional `&str`.
pub open spec fn ov(o: Option<&str>) -> Option<Seq<char>> {
    crate::paths::opt_str(o)
}

/// [`universal_master_roots`] for known config and home directories.
pub fn master_roots_in(config: Option<&str>, home: Option<&str>, project_root: Option<&str>) -> (out:
    Vec<String>)
    ensures
        vs(out@) == master_roots_spec(ov(config), ov(home), ov(project_root)),
{
    let mut roots: Vec<String> = Vec::new();
    if let Some(c) = config {
        let a = join(c, "agents");
        roots.push(join(a.as_str(), "skills"));
    }
    let ghost a = vs(roots@);
    if let Some(h) = home {
        let c1 = join(h, ".config");
        let c2 = join(c1.as_str(), "agents");
        roots.push(join(c2.as_str(), "skills"));
        roots.push(crate::paths::agents_skills_dir(h));
    }
    let ghost b = vs(roots@);
    if let Some(r) = project_root {
        roots.push(crate::paths::agents_skills_dir(r));
    }
    assert(vs(roots@) =~= master_roots_spec(ov(config), ov(home), ov(project_root)));
    roots
}

/// The universal-Master stores for a scope, from the environment's config
/// and home directories. Shared stores, as opposed to one agent's own dir.
pub fn universal_master_roots(project_root: Option<&str>) -> (out: Vec<String>)
    ensures
        exists|c: Option<Seq<char>>, h: Option<Seq<char>>|
            vs(out@) == #[trigger] master_roots_spec(c, h, ov(project_root)),
{
    let config = config_dir();
    let home = home_dir();
    let c: Option<&str> = match &config {
        Some(s) => Some(s.as_str()),
        None => None,
    };
    let h: Option<&str> = match &home {
        Some(s) => Some(s.as_str()),
        None => None,
    };
    master_roots_in(c, h, project_root)
}

/// Every candidate allow-list root: the universal stores plus the agent dirs.
pub fn allowed_root_candidates(master_roots: &Vec<String>, agent_skill_dirs: &Vec<String>) -> (out:
    Vec<String>)
    ensures
        out@ == master_roots@ + agent_skill_dirs@,
{
    let mut out: Vec<String> = Vec::new();
    append_strings(&mut out, master_roots);
    append_strings(&mut out, agent_skill_dirs);
    out
}

/// Append copies of `v` to `out`.
pub fn append_strings(out: &mut Vec<String>, v: &Vec<String>)
    ensures
        final(out)@ == old(out)@ + v@,
{
    let ghost start = out@;
    let mut i: usize = 0;
    while i < v.len()
        invariant
            i <= v.len(),
            out@ == start + v@.take(i as int),
        decreases v.len() - i,
    {
        out.push(v[i].clone());
        assert(out@ =~= start + v@.take(i + 1));
        i = i + 1;
    }
    assert(v@.take(v.len() as int) =~= v@);
}

/// The resolved roots, each once, in first-seen order; a candidate that could
/// not be resolved (`None`) is left out.
pub open spec fn dedup_resolved(s: Seq<Option<Seq<char>>>) -> Seq<Seq<char>>
    decreases s.len(),
{
    if s.len() == 0 {
        Seq::empty()
    } else {
        let p = dedup_resolved(s.drop_last());
        match s.last() {
            Some(x) => if p.contains(x) {
                p
            } else {
                p.push(x)
            },
            None => p,
        }
    }
}

/// The deduplicated roots hold each resolved candidate, hold nothing else,
/// and hold nothing twice.
pub proof fn lemma_dedup_resolved(s: Seq<Option<Seq<char>>>)
    ensures
        dedup_resolved(s).no_duplicates(),
        forall|i: int| 0 <= i < s.len() && (#[trigger] s[i]) is Some ==> dedup_resolved(s).contains(s[i]->Some_0),
        forall|k: int|
            0 <= k < dedup_resolved(s).len() ==> exists|i: int|
                0 <= i < s.len() && #[trigger] s[i] == Some(#[trigger] dedup_resolved(s)[k]),
    decreases s.len(),
{
    if s.len() > 0 {
        let t = s.drop_last();
        lemma_dedup_resolved(t);
        let p = dedup_resolved(t);
        assert forall|i: int| 0 <= i < s.len() && (#[trigger] s[i]) is Some implies dedup_resolved(s).contains(
            s[i]->Some_0,
        ) by {
            if i < t.len() {
                assert(t[i] == s[i]);
                let j = choose|j: int| 0 <= j < p.len() && p[j] == s[i]->Some_0;
                if !(s.last() is Some && !p.contains(s.last()->Some_0)) {
                } else {
                    assert(dedup_resolved(s)[j] == p[j]);
                }
            } else {
                if p.contains(s[i]->Some_0) {
                } else {
                    assert(dedup_resolved(s)[p.len() as int] == s[i]->Some_0);
                }
            }
        }
        assert forall|k: int| 0 <= k < dedup_resolved(s).len() implies exists|i: int|
            0 <= i < s.len() && #[trigger] s[i] == Some(#[trigger] dedup_resolved(s)[k]) by {
            if k < p.len() {
                assert(dedup_resolved(s)[k] == p[k]);
                let i = choose|i: int| 0 <= i < t.len() && #[trigger] t[i] == Some(#[trigger] p[k]);
                assert(s[i] == t[i]);
            } else {
                assert(s[s.len() - 1] == Some(dedup_resolved(s)[k]));
            }
        }
    }
}

/// Views of optional strings.
pub open spec fn ovs(s: Seq<Option<String>>) -> Seq<Option<Seq<char>>> {
    s.map_values(|o: Option<String>| crate::models::opt_view(o))
}

/// Whether `v` holds a string whose view is `x`.
pub fn contains_str(v: &Vec<String>, x: &str) -> (r: bool)
    ensures
        r == vs(v@).contains(x@),
{
    let mut i: usize = 0;
    while i < v.len()
        invariant
            i <= v.len(),
            forall|j: int| 0 <= j < i ==> vs(v@)[j] != x@,
        decreases v.len() - i,
    {
        if str_eq(v[i].as_str(), x) {
            assert(vs(v@)[i as int] == x@);
            return true;
        }
        i = i + 1;
    }
    false
}

/// The allow-listed skills roots: each candidate's resolved (canonical) path
/// as the caller observed it, `None` where it could not be resolved (it does
/// not exist), each root once.
pub fn allowed_skill_roots(resolved_candidates: &Vec<Option<String>>) -> (out: Vec<String>)
    ensures
        vs(out@) == dedup_resolved(ovs(resolved_candidates@)),
        vs(out@).no_duplicates(),
        forall|i: int|
            0 <= i < resolved_candidates.len() && (#[trigger] resolved_candidates@[i]) is Some ==> vs(
                out@,
            ).contains(resolved_candidates@[i]->Some_0@),
        forall|k: int|
            #![trigger vs(out@)[k]]
            0 <= k < out.len() ==> exists|i: int|
                0 <= i < resolved_candidates.len() && #[trigger] crate::models::opt_view(resolved_candidates@[i])
                    == Some(vs(out@)[k]),
{
    proof {
        lemma_dedup_resolved(ovs(resolved_candidates@));
    }
    let mut roots: Vec<String> = Vec::new();
    let mut i: usize = 0;
    while i < resolved_candidates.len()
        invariant
            i <= resolved_candidates.len(),
            vs(roots@) == dedup_resolved(ovs(resolved_candidates@).take(i as int)),
        decreases resolved_candidates.len() - i,
    {
        assert(ovs(resolved_candidates@).take(i + 1).drop_last() =~= ovs(
            resolved_candidates@,
        ).take(i as int));
        if let Some(c) = &resolved_candidates[i] {
            if !contains_str(&roots, c.as_str()) {
                roots.push(c.clone());
                assert(vs(roots@) =~= dedup_resolved(ovs(resolved_candidates@).take(i as int)).push(
                    c@,
                ));
            }
        }
        i = i + 1;
    }
    assert(ovs(resolved_candidates@).take(resolved_candidates.len() as int) =~= ovs(
        resolved_candidates@,
    ));
    let ghost o = ovs(resolved_candidates@);
    assert forall|i: int|
        0 <= i < resolved_candidates.len() && (#[trigger] resolved_candidates@[i]) is Some implies vs(
            roots@,
        ).contains(resolved_candidates@[i]->Some_0@) by {
        assert(o[i] == crate::models::opt_view(resolved_candidates@[i]));
    }
    assert forall|k: int|
        #![trigger vs(roots@)[k]]
        0 <= k < roots.len() implies exists|i: int|
            0 <= i < resolved_candidates.len() && #[trigger] crate::models::opt_view(resolved_candidates@[i])
                == Some(vs(roots@)[k]) by {
        let j = choose|j: int| 0 <= j < o.len() && #[trigger] o[j] == Some(#[trigger] dedup_resolved(o)[k]);
        assert(o[j] == crate::models::opt_view(resolved_candidates@[j]));
    }
    roots
}

/// Whether the resolved `target` lies within (or, `strict`, strictly within)
/// one of `roots`.
pub open spec fn contained_in(target: Seq<char>, roots: Seq<Seq<char>>, strict: bool) -> bool {
    exists|i: int|
        0 <= i < roots.len() && (if strict {
            strictly_within(target, #[trigger] roots[i])
        } else {
            within(target, roots[i])
        })
}

fn any_root_contains(target: &str, roots: &Vec<String>, strict: bool) -> (r: bool)
    ensures
        r == contained_in(target@, vs(roots@), strict),
{
    let mut i: usize = 0;
    while i < roots.len()
        invariant
            i <= roots.len(),
            forall|j: int|
                0 <= j < i ==> !(if strict {
                    strictly_within(target@, #[trigger] vs(roots@)[j])
                } else {
                    within(target@, vs(roots@)[j])
                }),
        decreases roots.len() - i,
    {
        let inside = path_within(target, roots[i].as_str());
        let hit = if strict {
            inside && !str_eq(target, roots[i].as_str())
        } else {
            inside
        };
        if hit {
            assert(vs(roots@)[i as int] == roots@[i as int]@);
            return true;
        }
        i = i + 1;
    }
    false
}

/// Assert that a target, by its canonical path (`None` when it could not be
/// canonicalized), is a descendant of one allow-listed root (each root by
/// its canonical path, or as given when that failed). Returns the canonical
/// path when contained.
pub fn assert_contained(target_canonical: Option<&str>, roots: &Vec<String>) -> (r: Option<String>)
    ensures
        match target_canonical {
            None => r is None,
            Some(t) => if contained_in(t@, vs(roots@), false) {
                r matches Some(c) && c@ == t@
            } else {
                r is None
            },
        },
{
    match target_canonical {
        None => None,
        Some(t) => if any_root_contains(t, roots, false) {
            Some(owned(t))
        } else {
            None
        },
    }
}

/// [`assert_contained`], but the root itself is rejected.
pub fn assert_strictly_contained(target_canonical: Option<&str>, roots: &Vec<String>) -> (r:
    Option<String>)
    ensures
        match target_canonical {
            None => r is None,
            Some(t) => if contained_in(t@, vs(roots@), true) {
                r matches Some(c) && c@ == t@
            } else {
                r is None
            },
        },
{
    match target_canonical {
        None => None,
        Some(t) => if any_root_contains(t, roots, true) {
            Some(owned(t))
        } else {
            None
        },
    }
}

/// What the caller observed of one target a content swap will replace.
#[derive(Debug)]
pub struct TargetObservation {
    pub target: String,
    /// `target.canonicalize()`, `None` on failure.
    pub canonical: Option<String>,
    /// `target.exists()`.
    pub exists: bool,
    /// `target.parent().canonicalize()`, `None` when there is no parent or it
    /// failed.
    pub parent_canonical: Option<String>,
}

/// A target is acceptable when it is strictly inside a root, or does not
/// exist yet and its parent is inside a root.
pub open spec fn target_ok(t: TargetObservation, roots: Seq<Seq<char>>) -> bool {
    ||| (t.canonical matches Some(c) && contained_in(c@, roots, true))
    ||| (!t.exists && (t.parent_canonical matches Some(p) && contained_in(p@, roots, false)))
}

/// `target is not a skill directory under allowed skill roots: {target}`
pub open spec fn out_of_tree_message(target: Seq<char>) -> Seq<char> {
    "target is not a skill directory under allowed skill roots: "@ + target
}

/// A permission-denied I/O error: the kind of error a refused path is
/// reported as.
#[derive(Debug, PartialEq, Eq)]
pub struct PermissionDenied {
    pub message: String,
}

/// Refuse unless every target is strictly contained in an allow-listed root
/// (or is absent with a contained parent). The refusal is a
/// permission-denied error naming the first offending target.
pub fn assert_targets_strictly_contained(targets: &Vec<TargetObservation>, roots: &Vec<String>) -> (r:
    Result<(), PermissionDenied>)
    ensures
        r is Ok <==> forall|i: int| 0 <= i < targets.len() ==> target_ok(#[trigger] targets@[i], vs(roots@)),
        r matches Err(e) ==> exists|i: int|
            0 <= i < targets.len() && !target_ok(#[trigger] targets@[i], vs(roots@))
                && e.message@ == out_of_tree_message(targets@[i].target@) && forall|j: int|
                0 <= j < i ==> target_ok(#[trigger] targets@[j], vs(roots@)),
{
    let mut i: usize = 0;
    while i < targets.len()
        invariant
            i <= targets.len(),
            forall|j: int| 0 <= j < i ==> target_ok(#[trigger] targets@[j], vs(roots@)),
        decreases targets.len() - i,
    {
        let t = &targets[i];
        let strict_ok = match &t.canonical {
            Some(c) => any_root_contains(c.as_str(), roots, true),
            None => false,
        };
        let absent_ok = !t.exists && match &t.parent_canonical {
            Some(p) => any_root_contains(p.as_str(), roots, false),
            None => false,
        };
        if !strict_ok && !absent_ok {
            let a = crate::text::chars_of("target is not a skill directory under allowed skill roots: ");
            let b = crate::text::chars_of(t.target.as_str());
            let m = crate::text::concat_chars(&a, &b);
            return Err(PermissionDenied { message: string_from(&m) });
        }
        i = i + 1;
    }
    Ok(())
}

/// What an `lstat` of a path said.
#[derive(Debug, PartialEq, Eq, Structural)]
pub enum StatResult {
    Present,
    NotFound,
    NotADirectory,
    Failed,
}

/// What a `canonicalize` of a path said.
#[derive(Debug)]
pub enum Resolution {
    Resolved(String),
    NotFound,
    Failed,
}

/// One entry a sweep considers, as the caller observed it.
#[derive(Debug)]
pub struct EntryObservation {
    /// The agent skills dir the entry belongs to.
    pub dir: String,
    /// The entry itself (`<dir>/<slot>` or a discovered folder).
    pub entry: String,
    /// `symlink_metadata(entry)`.
    pub stat: StatResult,
    /// `Linker::is_link(entry)`.
    pub is_link: bool,
    /// `canonicalize(entry)`.
    pub resolution: Resolution,
    /// Whether the entry's parent listing, read in full, names its leaf
    /// (`None` when the listing could not be completed). Consulted only when
    /// the `lstat` failed.
    pub listed: Option<bool>,
}

/// Whether this entry keeps `target` (by its canonical path): a link
/// resolving to it, or an entry that cannot be ruled out.
pub open spec fn refers_to(e: EntryObservation, target: Seq<char>) -> bool {
    match e.stat {
        StatResult::NotFound | StatResult::NotADirectory => false,
        StatResult::Failed => e.listed != Some(false),
        StatResult::Present => e.is_link && match e.resolution {
            Resolution::Resolved(r) => r@ == target,
            Resolution::NotFound => false,
            Resolution::Failed => true,
        },
    }
}

/// The first in-scope entry that still references `target_canonical` (the
/// kept directory's canonical path; `None` when it could not be resolved,
/// which references nothing). An entry whose `lstat` failed counts unless
/// its parent listing proves the leaf absent; a link whose resolution failed
/// for any reason but absence counts.
pub fn dir_has_external_referrer(target_canonical: Option<&str>, entries: &Vec<EntryObservation>) -> (r:
    Option<String>)
    ensures
        target_canonical is None ==> r is None,
        target_canonical matches Some(t) ==> {
            &&& r matches Some(x) ==> exists|i: int|
                0 <= i < entries.len() && refers_to(#[trigger] entries@[i], t@) && x@
                    == entries@[i].entry@ && forall|j: int|
                    0 <= j < i ==> !refers_to(#[trigger] entries@[j], t@)
            &&& r is None ==> forall|i: int|
                0 <= i < entries.len() ==> !refers_to(#[trigger] entries@[i], t@)
        },
{
    let t = match target_canonical {
        None => {
            return None;
        },
        Some(t) => t,
    };
    let mut i: usize = 0;
    while i < entries.len()
        invariant
            i <= entries.len(),
            target_canonical == Some(t),
            forall|j: int| 0 <= j < i ==> !refers_to(#[trigger] entries@[j], t@),
        decreases entries.len() - i,
    {
        let e = &entries[i];
        let hit = match e.stat {
            StatResult::NotFound | StatResult::NotADirectory => false,
            StatResult::Failed => match e.listed {
                Some(false) => false,
                _ => true,
            },
            StatResult::Present => e.is_link && match &e.resolution {
                Resolution::Resolved(r) => str_eq(r.as_str(), t),
                Resolution::NotFound => false,
                Resolution::Failed => true,
            },
        };
        if hit {
            return Some(e.entry.clone());
        }
        i = i + 1;
    }
    None
}

/// True when `dir` (by its canonical path) is strictly inside a universal
/// Master store: shared with every agent reading that store.
pub fn is_universal_master(dir_canonical: Option<&str>, master_roots: &Vec<String>) -> (r: bool)
    ensures
        r == (dir_canonical matches Some(d) && contained_in(d@, vs(master_roots@), true)),
{
    assert_strictly_contained(dir_canonical, master_roots).is_some()
}

/// The one rule for "may a single-agent removal delete this folder?": keep a
/// universal Master, and keep a folder another agent's link still resolves
/// into.
pub fn single_agent_keep_reason(
    dir_canonical: Option<&str>,
    master_roots: &Vec<String>,
    entries: &Vec<EntryObservation>,
) -> (r: Option<KeepReason>)
    ensures
        (dir_canonical matches Some(d) && contained_in(d@, vs(master_roots@), true)) ==> r
            == Some(KeepReason::UniversalMaster),
        !(dir_canonical matches Some(d) && contained_in(d@, vs(master_roots@), true)) ==> {
            &&& dir_canonical is None ==> r is None
            &&& dir_canonical matches Some(t) ==> {
                &&& r matches Some(KeepReason::ExternalReferrer(x)) ==> exists|i: int|
                    0 <= i < entries.len() && refers_to(#[trigger] entries@[i], t@) && x@
                        == entries@[i].entry@ && forall|j: int|
                        0 <= j < i ==> !refers_to(#[trigger] entries@[j], t@)
                &&& r is None ==> forall|i: int|
                    0 <= i < entries.len() ==> !refers_to(#[trigger] entries@[i], t@)
                &&& !(r matches Some(KeepReason::UniversalMaster))
            }
        },
{
    if is_universal_master(dir_canonical, master_roots) {
        Some(KeepReason::UniversalMaster)
    } else {
        match dir_has_external_referrer(dir_canonical, entries) {
            Some(x) => Some(KeepReason::ExternalReferrer(x)),
            None => None,
        }
    }
}

/// The state of a symlink-layout sweep.
pub struct Sweep {
    pub paths: Seq<Seq<char>>,
    pub skipped: Seq<Seq<char>>,
    pub other_refs: bool,
    pub unresolvable: bool,
    pub targeted: bool,
}

/// Whether an entry of `dir` is targeted by the removal.
pub open spec fn is_targeted(dir: Seq<char>, own: Option<Seq<char>>, all_agents: bool) -> bool {
    all_agents || own == Some(dir)
}

/// One step of the symlink-layout sweep.
pub open spec fn sweep_step(
    s: Sweep,
    e: EntryObservation,
    canonical_real: Option<Seq<char>>,
    own: Option<Seq<char>>,
    all_agents: bool,
) -> Sweep {
    let targeted = is_targeted(e.dir@, own, all_agents);
    match e.stat {
        StatResult::NotFound => s,
        StatResult::NotADirectory | StatResult::Failed => Sweep {
            other_refs: true,
            skipped: s.skipped.push(e.entry@),
            ..s
        },
        StatResult::Present => match e.resolution {
            Resolution::Resolved(r) => if canonical_real == Some(r@) {
                if e.is_link && targeted {
                    Sweep { paths: s.paths.push(e.entry@), targeted: true, ..s }
                } else if targeted {
                    Sweep { targeted: true, ..s }
                } else {
                    Sweep { other_refs: true, ..s }
                }
            } else {
                s
            },
            _ => if e.is_link && targeted {
                Sweep { paths: s.paths.push(e.entry@), targeted: true, unresolvable: true, ..s }
            } else {
                Sweep { unresolvable: true, ..s }
            },
        },
    }
}

/// The sweep over a sequence of entries.
pub open spec fn sweep(
    es: Seq<EntryObservation>,
    canonical_real: Option<Seq<char>>,
    own: Option<Seq<char>>,
    all_agents: bool,
) -> Sweep
    decreases es.len(),
{
    if es.len() == 0 {
        Sweep {
            paths: Seq::empty(),
            skipped: Seq::empty(),
            other_refs: false,
            unresolvable: false,
            targeted: false,
        }
    } else {
        sweep_step(sweep(es.drop_last(), canonical_real, own, all_agents), es.last(), canonical_real, own, all_agents)
    }
}

/// The symlink-layout plan: the swept paths, then the canonical dir removed
/// only when nothing else references it, the removal targeted something, and
/// it is inside the allow-list.
pub open spec fn symlink_plan(
    es: Seq<EntryObservation>,
    canonical: Option<Seq<char>>,
    canonical_real: Option<Seq<char>>,
    own: Option<Seq<char>>,
    all_agents: bool,
    roots: Seq<Seq<char>>,
) -> (Seq<Seq<char>>, Seq<Seq<char>>) {
    let s = sweep(es, canonical_real, own, all_agents);
    match canonical {
        None => (s.paths, s.skipped),
        Some(canon) => if s.other_refs || s.unresolvable {
            (s.paths, s.skipped.push(canon))
        } else if !s.targeted {
            (s.paths, s.skipped)
        } else if canonical_real matches Some(cr) && contained_in(cr, roots, false) {
            (s.paths.push(canon), s.skipped)
        } else {
            (s.paths, s.skipped.push(canon))
        },
    }
}

/// Symlink/`.agents` layout: unlink the targeted per-agent links, and delete
/// the canonical dir only when (a) it is inside an allow-listed root and (b)
/// no other view still references it (an entry that cannot be resolved counts
/// as a possible reference).
///
/// `entries` is the sweep over every in-scope agent dir's candidate entries,
/// in order; `canonical` the skill's canonical dir and `canonical_real` its
/// canonical path; `roots` the allow-list.
pub fn plan_symlink_removal(
    entries: &Vec<EntryObservation>,
    canonical: Option<&str>,
    canonical_real: Option<&str>,
    own_agent_dir: Option<&str>,
    all_agents: bool,
    roots: &Vec<String>,
) -> (plan: RemovalPlan)
    ensures
        plan.layout == Layout::Symlink,
        plan.needs_confirm,
        !plan.shared_master_kept,
        (vs(plan.paths@), vs(plan.skipped@)) == symlink_plan(
            entries@,
            ov(canonical),
            ov(canonical_real),
            ov(own_agent_dir),
            all_agents,
            vs(roots@),
        ),
{
    let mut paths: Vec<String> = Vec::new();
    let mut skipped: Vec<String> = Vec::new();
    let mut other_refs = false;
    let mut unresolvable = false;
    let mut targeted_anything = false;
    let mut i: usize = 0;
    while i < entries.len()
        invariant
            i <= entries.len(),
            ({
                let s = sweep(entries@.take(i as int), ov(canonical_real), ov(own_agent_dir), all_agents);
                &&& vs(paths@) == s.paths
                &&& vs(skipped@) == s.skipped
                &&& other_refs == s.other_refs
                &&& unresolvable == s.unresolvable
                &&& targeted_anything == s.targeted
            }),
        decreases entries.len() - i,
    {
        let e = &entries[i];
        assert(entries@.take(i + 1).drop_last() =~= entries@.take(i as int));
        assert(entries@.take(i + 1).last() == entries@[i as int]);
        let targeted = all_agents || match own_agent_dir {
            Some(d) => str_eq(d, e.dir.as_str()),
            None => false,
        };
        match e.stat {
            StatResult::NotFound => {},
            StatResult::NotADirectory | StatResult::Failed => {
                other_refs = true;
                skipped.push(e.entry.clone());
                assert(vs(skipped@) =~= sweep(entries@.take(i as int), ov(canonical_real), ov(own_agent_dir), all_agents).skipped.push(e.entry@));
            },
            StatResult::Present => match &e.resolution {
                Resolution::Resolved(r) => {
                    let same = match canonical_real {
                        Some(c) => str_eq(c, r.as_str()),
                        None => false,
                    };
                    if same {
                        if e.is_link && targeted {
                            paths.push(e.entry.clone());
                            assert(vs(paths@) =~= sweep(entries@.take(i as int), ov(canonical_real), ov(own_agent_dir), all_agents).paths.push(e.entry@));
                            targeted_anything = true;
                        } else if targeted {
                            targeted_anything = true;
                        } else {
                            other_refs = true;
                        }
                    }
                },
                _ => {
                    if e.is_link && targeted {
                        paths.push(e.entry.clone());
                        assert(vs(paths@) =~= sweep(entries@.take(i as int), ov(canonical_real), ov(own_agent_dir), all_agents).paths.push(e.entry@));
                        targeted_anything = true;
                    }
                    unresolvable = true;
                },
            },
        }
        i = i + 1;
    }
    assert(entries@.take(entries.len() as int) =~= entries@);
    if let Some(canon) = canonical {
        if other_refs || unresolvable {
            skipped.push(owned(canon));
        } else if !targeted_anything {
        } else if assert_contained(canonical_real, roots).is_some() {
            paths.push(owned(canon));
        } else {
            skipped.push(owned(canon));
        }
    }
    proof {
        let s = sweep(entries@, ov(canonical_real), ov(own_agent_dir), all_agents);
        assert(vs(paths@) =~= symlink_plan(entries@, ov(canonical), ov(canonical_real), ov(own_agent_dir), all_agents, vs(roots@)).0);
        assert(vs(skipped@) =~= symlink_plan(entries@, ov(canonical), ov(canonical_real), ov(own_agent_dir), all_agents, vs(roots@)).1);
    }
    RemovalPlan {
        layout: Layout::Symlink,
        paths,
        skipped,
        needs_confirm: true,
        shared_master_kept: false,
    }
}

/// A path with a leading `~/` expanded against `home` (`None` when there is
/// no home to expand against).
pub open spec fn expand_home(raw: Seq<char>, home: Option<Seq<char>>) -> Option<Seq<char>> {
    if crate::text::starts_with(raw, "~/"@) {
        match home {
            Some(h) => Some(join_spec(h, raw.skip(2))),
            None => None,
        }
    } else {
        Some(raw)
    }
}

pub fn expand_home_str(raw: &str, home: Option<&str>) -> (r: Option<String>)
    ensures
        opt_s(r) == expand_home(raw@, ov(home)),
{
    let v = crate::text::chars_of(raw);
    let tilde = crate::text::chars_of("~/");
    proof {
        reveal_strlit("~/");
    }
    if crate::text::has_prefix(&v, &tilde) {
        match home {
            Some(h) => {
                let rest_v = crate::text::slice_chars(&v, 2, v.len());
                assert(rest_v@ == v@.skip(2));
                let rest = string_from(&rest_v);
                Some(join(h, rest.as_str()))
            },
            None => None,
        }
    } else {
        Some(owned(raw))
    }
}

/// View of an optional `String`.
pub open spec fn opt_s(o: Option<String>) -> Option<Seq<char>> {
    crate::models::opt_view(o)
}

/// The on-disk root of an installed skill: its `canonical_path` (else its
/// `source_path`), `~/` expanded, stepped up from a `SKILL.md` file.
pub open spec fn skill_root_spec(s: crate::models::Skill, home: Option<Seq<char>>) -> Option<Seq<char>> {
    let raw = match s.canonical_path {
        Some(c) => Some(c@),
        None => opt_s(s.source_path),
    };
    match raw {
        None => None,
        Some(r) => match expand_home(r, home) {
            None => None,
            Some(p) => Some(crate::paths::skill_source_root_spec(p)),
        },
    }
}

/// [`skill_root`] for a known home directory.
pub fn skill_root_in(skill: &crate::models::Skill, home: Option<&str>) -> (r: Option<String>)
    ensures
        opt_s(r) == skill_root_spec(*skill, ov(home)),
{
    let raw: &String = match &skill.canonical_path {
        Some(c) => c,
        None => match &skill.source_path {
            Some(s) => s,
            None => {
                return None;
            },
        },
    };
    match expand_home_str(raw.as_str(), home) {
        None => None,
        Some(p) => Some(crate::paths::skill_source_root(p.as_str())),
    }
}

/// Resolve the on-disk root directory of an installed skill (see
/// [`skill_root_spec`]), expanding `~/` against the user's home directory.
pub fn skill_root(skill: &crate::models::Skill) -> (r: Option<String>)
    ensures
        exists|h: Option<Seq<char>>| opt_s(r) == #[trigger] skill_root_spec(*skill, h),
{
    let home = home_dir();
    match &home {
        Some(h) => skill_root_in(skill, Some(h.as_str())),
        None => skill_root_in(skill, None),
    }
}

/// The distinct roots of every installed skill called `name`, in first-seen
/// order over the agents and their skills.
pub open spec fn roots_of(
    skills: Seq<crate::models::Skill>,
    name: Seq<char>,
    home: Option<Seq<char>>,
) -> Seq<Seq<char>>
    decreases skills.len(),
{
    if skills.len() == 0 {
        Seq::empty()
    } else {
        add_root(roots_of(skills.drop_last(), name, home), skills.last(), name, home)
    }
}

/// `p` with the root of `s` appended when `s` is called `name`, has a root,
/// and that root is new.
pub open spec fn add_root(
    p: Seq<Seq<char>>,
    s: crate::models::Skill,
    name: Seq<char>,
    home: Option<Seq<char>>,
) -> Seq<Seq<char>> {
    if s.name@ == name {
        match skill_root_spec(s, home) {
            Some(r) => if p.contains(r) {
                p
            } else {
                p.push(r)
            },
            None => p,
        }
    } else {
        p
    }
}

/// Every skill of every agent, agents in order.
pub open spec fn all_skills(agents: Seq<crate::models::AgentResources>) -> Seq<crate::models::Skill>
    decreases agents.len(),
{
    if agents.len() == 0 {
        Seq::empty()
    } else {
        all_skills(agents.drop_last()) + agents.last().skills@
    }
}

proof fn lemma_roots_of_push(
    skills: Seq<crate::models::Skill>,
    s: crate::models::Skill,
    name: Seq<char>,
    home: Option<Seq<char>>,
)
    ensures
        roots_of(skills.push(s), name, home) == add_root(roots_of(skills, name, home), s, name, home),
{
    assert(skills.push(s).drop_last() =~= skills);
}

/// The installed roots of `name` against an already-loaded agent set and a
/// known home directory: name match, a resolvable root, de-duplicated.
pub fn installed_roots_for(
    agents: &Vec<crate::models::AgentResources>,
    name: &str,
    home: Option<&str>,
) -> (out: Vec<String>)
    ensures
        vs(out@) == roots_of(all_skills(agents@), name@, ov(home)),
{
    let mut roots: Vec<String> = Vec::new();
    let mut a: usize = 0;
    while a < agents.len()
        invariant
            a <= agents.len(),
            vs(roots@) == roots_of(all_skills(agents@.take(a as int)), name@, ov(home)),
        decreases agents.len() - a,
    {
        let agent = &agents[a];
        let ghost before = all_skills(agents@.take(a as int));
        assert(agents@.take(a + 1).drop_last() =~= agents@.take(a as int));
        let mut k: usize = 0;
        while k < agent.skills.len()
            invariant
                a < agents.len(),
                agent == agents@[a as int],
                k <= agent.skills.len(),
                vs(roots@) == roots_of(before + agent.skills@.take(k as int), name@, ov(home)),
            decreases agent.skills.len() - k,
        {
            let skill = &agent.skills[k];
            proof {
                assert(before + agent.skills@.take(k + 1) =~= (before + agent.skills@.take(k as int)).push(*skill));
                lemma_roots_of_push(before + agent.skills@.take(k as int), *skill, name@, ov(home));
            }
            if str_eq(skill.name.as_str(), name) {
                if let Some(root) = skill_root_in(skill, home) {
                    if !contains_str(&roots, root.as_str()) {
                        roots.push(root);
                        assert(vs(roots@) =~= roots_of(before + agent.skills@.take(k as int), name@, ov(home)).push(vs(roots@).last()));
                    }
                }
            }
            k = k + 1;
        }
        assert(agent.skills@.take(agent.skills.len() as int) =~= agent.skills@);
        assert(all_skills(agents@.take(a + 1)) == before + agent.skills@);
        a = a + 1;
    }
    assert(agents@.take(agents.len() as int) =~= agents@);
    roots
}

/// Resolve the on-disk roots of every installed skill named `name` in an
/// already-loaded agent set, `~/` expanded against the user's home.
pub fn installed_skill_roots_in(agents: &Vec<crate::models::AgentResources>, name: &str) -> (out:
    Vec<String>)
    ensures
        exists|h: Option<Seq<char>>| vs(out@) == #[trigger] roots_of(all_skills(agents@), name@, h),
{
    let home = home_dir();
    match &home {
        Some(h) => installed_roots_for(agents, name, Some(h.as_str())),
        None => installed_roots_for(agents, name, None),
    }
}

/// The folder a discovered skill was read FROM: the parent of its
/// (`~/`-expanded) `source_path`.
pub open spec fn entry_dir_spec(s: crate::models::Skill, home: Option<Seq<char>>) -> Option<Seq<char>> {
    match opt_s(s.source_path) {
        None => None,
        Some(raw) => match expand_home(raw, home) {
            None => None,
            Some(p) => crate::paths::parent_spec(p),
        },
    }
}

fn discovered_entry_dir(skill: &crate::models::Skill, home: Option<&str>) -> (r: Option<String>)
    ensures
        opt_s(r) == entry_dir_spec(*skill, ov(home)),
{
    match &skill.source_path {
        None => None,
        Some(raw) => match expand_home_str(raw.as_str(), home) {
            None => None,
            Some(p) => crate::paths::parent(p.as_str()),
        },
    }
}

/// `p` with the discovered entry of `s` appended when `s` is called `name`
/// and the entry is new.
pub open spec fn add_entry(
    p: Seq<Seq<char>>,
    s: crate::models::Skill,
    name: Seq<char>,
    home: Option<Seq<char>>,
) -> Seq<Seq<char>> {
    if s.name@ == name {
        match entry_dir_spec(s, home) {
            Some(e) => if p.contains(e) {
                p
            } else {
                p.push(e)
            },
            None => p,
        }
    } else {
        p
    }
}

/// The slot followed by every new discovered entry of `name`.
pub open spec fn candidates_spec(
    slot: Seq<char>,
    found: Seq<crate::models::Skill>,
    name: Seq<char>,
    home: Option<Seq<char>>,
) -> Seq<Seq<char>>
    decreases found.len(),
{
    if found.len() == 0 {
        seq![slot]
    } else {
        add_entry(candidates_spec(slot, found.drop_last(), name, home), found.last(), name, home)
    }
}

/// Every folder in `dir` a removal of the skill `name` has to consider: the
/// `<dir>/<safe>` slot AND whatever discovery read as that skill there
/// (`found`, the skills discovered in `dir`; empty when it could not be
/// walked).
pub fn candidate_entries(
    dir: &str,
    name: &str,
    safe: &str,
    found: &Vec<crate::models::Skill>,
    home: Option<&str>,
) -> (out: Vec<String>)
    ensures
        vs(out@) == candidates_spec(join_spec(dir@, safe@), found@, name@, ov(home)),
{
    let mut out: Vec<String> = Vec::new();
    out.push(join(dir, safe));
    assert(vs(out@) =~= candidates_spec(join_spec(dir@, safe@), found@.take(0), name@, ov(home)));
    let mut i: usize = 0;
    while i < found.len()
        invariant
            i <= found.len(),
            vs(out@) == candidates_spec(join_spec(dir@, safe@), found@.take(i as int), name@, ov(home)),
        decreases found.len() - i,
    {
        let skill = &found[i];
        assert(found@.take(i + 1).drop_last() =~= found@.take(i as int));
        if str_eq(skill.name.as_str(), name) {
            if let Some(entry) = discovered_entry_dir(skill, home) {
                if !contains_str(&out, entry.as_str()) {
                    out.push(entry);
                    assert(vs(out@) =~= candidates_spec(join_spec(dir@, safe@), found@.take(i as int), name@, ov(home)).push(vs(out@).last()));
                }
            }
        }
        i = i + 1;
    }
    assert(found@.take(found.len() as int) =~= found@);
    out
}

/// One skill discovery found in an agent's read dir, with the two identities
/// a removal compares: the entry with only its parent resolved, and the
/// entry fully resolved.
#[derive(Debug)]
pub struct ReadEntry {
    pub name: String,
    /// The folder the skill was read from.
    pub entry: String,
    /// The entry with its parent canonicalized and its leaf kept.
    pub identity: String,
    /// The entry canonicalized, leaf included.
    pub resolved: String,
}

/// What a removal actually does to ONE agent's view of a skill.
#[derive(Debug)]
pub struct ReadEffect {
    /// Entries that go on handing this agent the skill afterwards.
    pub survivors: Vec<String>,
    /// The set of distinct locations this agent reads the skill from shrank.
    pub changed: bool,
}

/// Whether `id` is taken by deleting one of `doomed`.
pub open spec fn doomed_by(id: Seq<char>, doomed: Seq<Seq<char>>) -> bool {
    exists|k: int| 0 <= k < doomed.len() && within(id, #[trigger] doomed[k])
}

/// The distinct resolved locations of the matching entries, first-seen order.
pub open spec fn locations(es: Seq<ReadEntry>, name: Seq<char>, doomed: Seq<Seq<char>>, keep_only: bool) -> Seq<
    Seq<char>,
>
    decreases es.len(),
{
    if es.len() == 0 {
        Seq::empty()
    } else {
        let p = locations(es.drop_last(), name, doomed, keep_only);
        let e = es.last();
        if e.name@ == name && !(keep_only && doomed_by(e.identity@, doomed)) && !p.contains(
            e.resolved@,
        ) {
            p.push(e.resolved@)
        } else {
            p
        }
    }
}

/// The surviving entries: each non-doomed matching entry whose location is
/// new among the survivors.
pub open spec fn survivors_spec(es: Seq<ReadEntry>, name: Seq<char>, doomed: Seq<Seq<char>>) -> Seq<
    Seq<char>,
>
    decreases es.len(),
{
    if es.len() == 0 {
        Seq::empty()
    } else {
        let p = survivors_spec(es.drop_last(), name, doomed);
        let e = es.last();
        if e.name@ == name && !doomed_by(e.identity@, doomed) && !locations(
            es.drop_last(),
            name,
            doomed,
            true,
        ).contains(e.resolved@) {
            p.push(e.entry@)
        } else {
            p
        }
    }
}

fn is_doomed(id: &str, doomed: &Vec<String>) -> (r: bool)
    ensures
        r == doomed_by(id@, vs(doomed@)),
{
    let mut k: usize = 0;
    while k < doomed.len()
        invariant
            k <= doomed.len(),
            forall|j: int| 0 <= j < k ==> !within(id@, #[trigger] vs(doomed@)[j]),
        decreases doomed.len() - k,
    {
        if path_within(id, doomed[k].as_str()) {
            assert(vs(doomed@)[k as int] == doomed@[k as int]@);
            return true;
        }
        k = k + 1;
    }
    false
}

/// Did deleting `doomed` (entry identities) take anything away from the
/// agent whose discovered skills are `read`, and what still hands it the
/// skill `name` afterwards? `changed` is whether the set of distinct
/// locations it reads `name` from shrank.
pub fn read_effect_after(read: &Vec<ReadEntry>, name: &str, doomed: &Vec<String>) -> (r: ReadEffect)
    ensures
        vs(r.survivors@) == survivors_spec(read@, name@, vs(doomed@)),
        r.changed == exists|i: int|
            0 <= i < locations(read@, name@, vs(doomed@), false).len() && !locations(
                read@,
                name@,
                vs(doomed@),
                true,
            ).contains(#[trigger] locations(read@, name@, vs(doomed@), false)[i]),
{
    let mut before: Vec<String> = Vec::new();
    let mut after: Vec<String> = Vec::new();
    let mut survivors: Vec<String> = Vec::new();
    let mut i: usize = 0;
    while i < read.len()
        invariant
            i <= read.len(),
            vs(before@) == locations(read@.take(i as int), name@, vs(doomed@), false),
            vs(after@) == locations(read@.take(i as int), name@, vs(doomed@), true),
            vs(survivors@) == survivors_spec(read@.take(i as int), name@, vs(doomed@)),
        decreases read.len() - i,
    {
        let e = &read[i];
        assert(read@.take(i + 1).drop_last() =~= read@.take(i as int));
        if str_eq(e.name.as_str(), name) {
            if !contains_str(&before, e.resolved.as_str()) {
                before.push(e.resolved.clone());
                assert(vs(before@) =~= locations(read@.take(i as int), name@, vs(doomed@), false).push(e.resolved@));
            }
            if !is_doomed(e.identity.as_str(), doomed) {
                if !contains_str(&after, e.resolved.as_str()) {
                    after.push(e.resolved.clone());
                    assert(vs(after@) =~= locations(read@.take(i as int), name@, vs(doomed@), true).push(e.resolved@));
                    survivors.push(e.entry.clone());
                    assert(vs(survivors@) =~= survivors_spec(read@.take(i as int), name@, vs(doomed@)).push(e.entry@));
                }
            }
        }
        i = i + 1;
    }
    assert(read@.take(read.len() as int) =~= read@);
    let mut changed = false;
    let mut j: usize = 0;
    while j < before.len()
        invariant
            j <= before.len(),
            changed == exists|m: int| 0 <= m < j && !vs(after@).contains(#[trigger] vs(before@)[m]),
        decreases before.len() - j,
    {
        if !contains_str(&after, before[j].as_str()) {
            assert(!vs(after@).contains(vs(before@)[j as int]));
            changed = true;
        }
        j = j + 1;
    }
    ReadEffect { survivors, changed }
}

/// What the caller observed of a folder a copy-layout removal may delete.
#[derive(Debug)]
pub struct CopyObservation {
    pub path: String,
    /// `path.exists()`.
    pub exists: bool,
    /// `path.canonicalize()`, `None` on failure.
    pub canonical: Option<String>,
}

/// Whether a copy may be deleted: its canonical path is inside the allow-list.
pub open spec fn copy_contained(c: CopyObservation, roots: Seq<Seq<char>>) -> bool {
    c.canonical matches Some(p) && contained_in(p@, roots, false)
}

/// The `--all-agents` copy sweep: every existing candidate once, into
/// `paths` when contained, else into `skipped`.
pub open spec fn copy_sweep(cs: Seq<CopyObservation>, roots: Seq<Seq<char>>) -> (Seq<Seq<char>>, Seq<Seq<char>>)
    decreases cs.len(),
{
    if cs.len() == 0 {
        (Seq::empty(), Seq::empty())
    } else {
        let (p, s) = copy_sweep(cs.drop_last(), roots);
        let c = cs.last();
        if c.exists && !p.contains(c.path@) {
            if copy_contained(c, roots) {
                (p.push(c.path@), s)
            } else {
                (p, s.push(c.path@))
            }
        } else {
            (p, s)
        }
    }
}

/// The single-agent copy plan for the skill's own root.
pub open spec fn single_copy_plan(
    root: Option<CopyObservation>,
    keep: Option<KeepReason>,
    roots: Seq<Seq<char>>,
) -> (Seq<Seq<char>>, Seq<Seq<char>>, bool) {
    match root {
        Some(r) => if !r.exists {
            (Seq::empty(), Seq::empty(), false)
        } else {
            match keep {
                Some(KeepReason::UniversalMaster) => (Seq::empty(), seq![r.path@], true),
                Some(KeepReason::ExternalReferrer(_)) => (Seq::empty(), seq![r.path@], false),
                None => if copy_contained(r, roots) {
                    (seq![r.path@], Seq::empty(), false)
                } else {
                    (Seq::empty(), seq![r.path@], false)
                },
            }
        },
        None => (Seq::empty(), Seq::empty(), false),
    }
}

/// Copy layout (no `canonical_path`). With `all_agents`, every existing
/// same-named copy in `copies` (in sweep order) is removed when contained;
/// otherwise only the skill's own `root`, unless `keep` says it must stay
/// (a universal Master is reported as `shared_master_kept`).
pub fn plan_copy_removal(
    copies: &Vec<CopyObservation>,
    root: Option<&CopyObservation>,
    keep: Option<&KeepReason>,
    roots: &Vec<String>,
    all_agents: bool,
) -> (plan: RemovalPlan)
    ensures
        plan.layout == Layout::Copy,
        plan.needs_confirm == all_agents,
        all_agents ==> (vs(plan.paths@), vs(plan.skipped@)) == copy_sweep(copies@, vs(roots@))
            && !plan.shared_master_kept,
        !all_agents ==> (vs(plan.paths@), vs(plan.skipped@), plan.shared_master_kept)
            == single_copy_plan(
            match root {
                Some(r) => Some(*r),
                None => None,
            },
            match keep {
                Some(k) => Some(*k),
                None => None,
            },
            vs(roots@),
        ),
{
    let mut paths: Vec<String> = Vec::new();
    let mut skipped: Vec<String> = Vec::new();
    if all_agents {
        let mut i: usize = 0;
        while i < copies.len()
            invariant
                i <= copies.len(),
                (vs(paths@), vs(skipped@)) == copy_sweep(copies@.take(i as int), vs(roots@)),
            decreases copies.len() - i,
        {
            let c = &copies[i];
            assert(copies@.take(i + 1).drop_last() =~= copies@.take(i as int));
            if c.exists && !contains_str(&paths, c.path.as_str()) {
                let canon: Option<&str> = match &c.canonical {
                    Some(p) => Some(p.as_str()),
                    None => None,
                };
                if assert_contained(canon, roots).is_some() {
                    paths.push(c.path.clone());
                    assert(vs(paths@) =~= copy_sweep(copies@.take(i as int), vs(roots@)).0.push(c.path@));
                } else {
                    skipped.push(c.path.clone());
                    assert(vs(skipped@) =~= copy_sweep(copies@.take(i as int), vs(roots@)).1.push(c.path@));
                }
            }
            i = i + 1;
        }
        assert(copies@.take(copies.len() as int) =~= copies@);
        RemovalPlan {
            layout: Layout::Copy,
            paths,
            skipped,
            needs_confirm: true,
            shared_master_kept: false,
        }
    } else {
        let mut shared_master_kept = false;
        if let Some(r) = root {
            if r.exists {
                match keep {
                    Some(KeepReason::UniversalMaster) => {
                        shared_master_kept = true;
                        skipped.push(r.path.clone());
                    },
                    Some(KeepReason::ExternalReferrer(_)) => {
                        skipped.push(r.path.clone());
                    },
                    None => {
                        let canon: Option<&str> = match &r.canonical {
                            Some(p) => Some(p.as_str()),
                            None => None,
                        };
                        if assert_contained(canon, roots).is_some() {
                            paths.push(r.path.clone());
                        } else {
                            skipped.push(r.path.clone());
                        }
                    },
                }
            }
        }
        assert(vs(paths@) =~= single_copy_plan(
            match root {
                Some(r) => Some(*r),
                None => None,
            },
            match keep {
                Some(k) => Some(*k),
                None => None,
            },
            vs(roots@),
        ).0);
        assert(vs(skipped@) =~= single_copy_plan(
            match root {
                Some(r) => Some(*r),
                None => None,
            },
            match keep {
                Some(k) => Some(*k),
                None => None,
            },
            vs(roots@),
        ).1);
        RemovalPlan {
            layout: Layout::Copy,
            paths,
            skipped,
            needs_confirm: false,
            shared_master_kept,
        }
    }
}

/// Every observation a removal plan is decided from.
#[derive(Debug)]
pub struct RemovalSurvey {
    /// Symlink layout: the sweep over every in-scope dir's candidate entries.
    pub entries: Vec<EntryObservation>,
    /// The skill's root (its canonical dir).
    pub canonical: Option<String>,
    /// That root's canonical path.
    pub canonical_real: Option<String>,
    /// Copy layout, `--all-agents`: every candidate copy, in sweep order.
    pub copies: Vec<CopyObservation>,
    /// Copy layout, single agent: the skill's own root.
    pub root: Option<CopyObservation>,
    /// Copy layout, single agent: why the root must stay, if it must.
    pub keep: Option<KeepReason>,
    /// The allow-listed roots.
    pub roots: Vec<String>,
}

/// A path a removal plan may schedule: a link found by the sweep (unlinked,
/// its target untouched), the skill's canonical dir when its canonical path
/// is inside the allow-list, or a copy whose canonical path is.
pub open spec fn plannable(p: Seq<char>, survey: RemovalSurvey) -> bool {
    ||| exists|i: int| 0 <= i < survey.entries@.len() && (#[trigger] survey.entries@[i]).entry@ == p && survey.entries@[i].is_link
    ||| (survey.canonical matches Some(c) && c@ == p && (survey.canonical_real matches Some(cr) && contained_in(
        cr@,
        vs(survey.roots@),
        false,
    )))
    ||| exists|i: int| 0 <= i < survey.copies@.len() && (#[trigger] survey.copies@[i]).path@ == p && copy_contained(
        survey.copies@[i],
        vs(survey.roots@),
    )
    ||| (survey.root matches Some(r) && r.path@ == p && copy_contained(r, vs(survey.roots@)))
}

proof fn lemma_sweep_paths_are_links(
    es: Seq<EntryObservation>,
    canonical_real: Option<Seq<char>>,
    own: Option<Seq<char>>,
    all_agents: bool,
)
    ensures
        forall|k: int|
            0 <= k < sweep(es, canonical_real, own, all_agents).paths.len() ==> exists|i: int|
                0 <= i < es.len() && (#[trigger] es[i]).entry@ == #[trigger] sweep(es, canonical_real, own, all_agents).paths[k]
                    && es[i].is_link,
    decreases es.len(),
{
    if es.len() > 0 {
        let t = es.drop_last();
        lemma_sweep_paths_are_links(t, canonical_real, own, all_agents);
        let prev = sweep(t, canonical_real, own, all_agents);
        let cur = sweep(es, canonical_real, own, all_agents);
        assert forall|k: int| 0 <= k < cur.paths.len() implies exists|i: int|
            0 <= i < es.len() && (#[trigger] es[i]).entry@ == #[trigger] cur.paths[k] && es[i].is_link by {
            if k < prev.paths.len() {
                assert(cur.paths[k] == prev.paths[k]);
                let i = choose|i: int| 0 <= i < t.len() && (#[trigger] t[i]).entry@ == #[trigger] prev.paths[k] && t[i].is_link;
                assert(es[i] == t[i]);
            } else {
                assert(es[es.len() - 1] == es.last());
            }
        }
    }
}

proof fn lemma_copy_sweep_contained(cs: Seq<CopyObservation>, roots: Seq<Seq<char>>)
    ensures
        forall|k: int|
            0 <= k < copy_sweep(cs, roots).0.len() ==> exists|i: int|
                0 <= i < cs.len() && (#[trigger] cs[i]).path@ == #[trigger] copy_sweep(cs, roots).0[k] && copy_contained(
                    cs[i],
                    roots,
                ),
    decreases cs.len(),
{
    if cs.len() > 0 {
        let t = cs.drop_last();
        lemma_copy_sweep_contained(t, roots);
        let prev = copy_sweep(t, roots).0;
        let cur = copy_sweep(cs, roots).0;
        assert forall|k: int| 0 <= k < cur.len() implies exists|i: int|
            0 <= i < cs.len() && (#[trigger] cs[i]).path@ == #[trigger] cur[k] && copy_contained(cs[i], roots) by {
            if k < prev.len() {
                assert(cur[k] == prev[k]);
                let i = choose|i: int| 0 <= i < t.len() && (#[trigger] t[i]).path@ == #[trigger] prev[k] && copy_contained(t[i], roots);
                assert(cs[i] == t[i]);
            } else {
                assert(cs[cs.len() - 1] == cs.last());
            }
        }
    }
}

/// Plan a layout-aware removal of `skill`: a skill with a `canonical_path` is
/// a symlink layout, anything else a copy layout.
pub fn plan_removal(
    skill: &crate::models::Skill,
    own_agent_dir: Option<&str>,
    all_agents: bool,
    survey: &RemovalSurvey,
) -> (plan: RemovalPlan)
    ensures
        skill.canonical_path is Some ==> {
            &&& plan.layout == Layout::Symlink
            &&& plan.needs_confirm
            &&& !plan.shared_master_kept
            &&& (vs(plan.paths@), vs(plan.skipped@)) == symlink_plan(
                survey.entries@,
                opt_s(survey.canonical),
                opt_s(survey.canonical_real),
                ov(own_agent_dir),
                all_agents,
                vs(survey.roots@),
            )
        },
        skill.canonical_path is None ==> {
            &&& plan.layout == Layout::Copy
            &&& plan.needs_confirm == all_agents
            &&& all_agents ==> (vs(plan.paths@), vs(plan.skipped@)) == copy_sweep(
                survey.copies@,
                vs(survey.roots@),
            ) && !plan.shared_master_kept
            &&& !all_agents ==> (vs(plan.paths@), vs(plan.skipped@), plan.shared_master_kept)
                == single_copy_plan(survey.root, survey.keep, vs(survey.roots@))
        },
        forall|k: int| 0 <= k < plan.paths@.len() ==> plannable(#[trigger] vs(plan.paths@)[k], *survey),
{
    proof {
        lemma_sweep_paths_are_links(survey.entries@, opt_s(survey.canonical_real), ov(own_agent_dir), all_agents);
        lemma_copy_sweep_contained(survey.copies@, vs(survey.roots@));
    }
    let plan = if skill.canonical_path.is_some() {
        let canonical: Option<&str> = match &survey.canonical {
            Some(c) => Some(c.as_str()),
            None => None,
        };
        let canonical_real: Option<&str> = match &survey.canonical_real {
            Some(c) => Some(c.as_str()),
            None => None,
        };
        plan_symlink_removal(
            &survey.entries,
            canonical,
            canonical_real,
            own_agent_dir,
            all_agents,
            &survey.roots,
        )
    } else {
        let root: Option<&CopyObservation> = match &survey.root {
            Some(r) => Some(r),
            None => None,
        };
        let keep: Option<&KeepReason> = match &survey.keep {
            Some(k) => Some(k),
            None => None,
        };
        plan_copy_removal(&survey.copies, root, keep, &survey.roots, all_agents)
    };
    proof {
        let ps = vs(plan.paths@);
        assert forall|k: int| 0 <= k < plan.paths@.len() implies plannable(#[trigger] vs(plan.paths@)[k], *survey) by {
            if skill.canonical_path is Some {
                let sw = sweep(survey.entries@, opt_s(survey.canonical_real), ov(own_agent_dir), all_agents);
                if k < sw.paths.len() {
                    assert(ps[k] == sw.paths[k]);
                    let i = choose|i: int|
                        0 <= i < survey.entries@.len() && (#[trigger] survey.entries@[i]).entry@ == #[trigger] sw.paths[k]
                            && survey.entries@[i].is_link;
                    assert(survey.entries@[i].entry@ == ps[k]);
                } else {
                    let sp = symlink_plan(
                        survey.entries@,
                        opt_s(survey.canonical),
                        opt_s(survey.canonical_real),
                        ov(own_agent_dir),
                        all_agents,
                        vs(survey.roots@),
                    );
                    assert(ps == sp.0);
                    assert(survey.canonical is Some);
                    assert(ps[k] == survey.canonical->Some_0@);
                    assert(survey.canonical_real is Some);
                }
            } else if all_agents {
                let i = choose|i: int|
                    0 <= i < survey.copies@.len() && (#[trigger] survey.copies@[i]).path@ == #[trigger] copy_sweep(
                        survey.copies@,
                        vs(survey.roots@),
                    ).0[k] && copy_contained(survey.copies@[i], vs(survey.roots@));
                assert(survey.copies@[i].path@ == ps[k]);
            } else {
                let t = single_copy_plan(survey.root, survey.keep, vs(survey.roots@));
                assert(ps == t.0);
                assert(survey.root is Some);
                assert(ps[k] == survey.root->Some_0.path@);
            }
        }
    }
    plan
}

/// What an `lstat` found at a planned path, just before deleting it.
#[derive(Debug)]
pub enum PathState {
    /// Already gone.
    Missing,
    /// The `lstat` failed (the error).
    Unreadable(String),
    /// A link or junction.
    Link,
    /// A directory, with its canonical path (`None` on failure).
    Dir { canonical: Option<String> },
    /// Anything else.
    File,
}

/// What to do with one planned path.
#[derive(Debug, PartialEq, Eq, Structural)]
pub enum RemovalStep {
    /// Nothing: it is already gone.
    Nothing,
    /// Record a failure: it could not even be inspected.
    Fail,
    /// Unlink the link itself; its target is never touched.
    Unlink,
    /// Remove the directory tree (its containment was re-asserted).
    RemoveDirAll,
    /// Refuse: the directory escaped the allow-list since planning.
    Refuse,
    /// Remove the file.
    RemoveFile,
}

/// The step for a path in `state`: a directory is removed only when its
/// canonical path is inside the allow-list (re-checked at delete time).
pub open spec fn step_for(state: PathState, roots: Seq<Seq<char>>) -> RemovalStep {
    match state {
        PathState::Missing => RemovalStep::Nothing,
        PathState::Unreadable(_) => RemovalStep::Fail,
        PathState::Link => RemovalStep::Unlink,
        PathState::Dir { canonical } => if canonical matches Some(c) && contained_in(c@, roots, false) {
            RemovalStep::RemoveDirAll
        } else {
            RemovalStep::Refuse
        },
        PathState::File => RemovalStep::RemoveFile,
    }
}

/// The delete-time decision for every planned path (`states[i]` is what an
/// `lstat` of `plan.paths[i]` found).
pub fn removal_steps(states: &Vec<PathState>, roots: &Vec<String>) -> (steps: Vec<RemovalStep>)
    ensures
        steps.len() == states.len(),
        forall|i: int| 0 <= i < states.len() ==> steps@[i] == step_for(#[trigger] states@[i], vs(roots@)),
{
    let mut steps: Vec<RemovalStep> = Vec::new();
    let mut i: usize = 0;
    while i < states.len()
        invariant
            i <= states.len(),
            steps.len() == i,
            forall|j: int| 0 <= j < i ==> steps@[j] == step_for(#[trigger] states@[j], vs(roots@)),
        decreases states.len() - i,
    {
        let step = match &states[i] {
            PathState::Missing => RemovalStep::Nothing,
            PathState::Unreadable(_) => RemovalStep::Fail,
            PathState::Link => RemovalStep::Unlink,
            PathState::Dir { canonical } => {
                let c: Option<&str> = match canonical {
                    Some(p) => Some(p.as_str()),
                    None => None,
                };
                if assert_contained(c, roots).is_some() {
                    RemovalStep::RemoveDirAll
                } else {
                    RemovalStep::Refuse
                }
            },
            PathState::File => RemovalStep::RemoveFile,
        };
        steps.push(step);
        i = i + 1;
    }
    steps
}

/// Whether a step deletes something.
pub open spec fn destructive(s: RemovalStep) -> bool {
    s == RemovalStep::Unlink || s == RemovalStep::RemoveDirAll || s == RemovalStep::RemoveFile
}

/// How one path ended up in the report.
pub open spec fn report_fold(
    paths: Seq<Seq<char>>,
    steps: Seq<RemovalStep>,
    errors: Seq<Option<Seq<char>>>,
) -> (Seq<Seq<char>>, Seq<Seq<char>>, Seq<Seq<char>>)
    decreases paths.len(),
{
    if paths.len() == 0 {
        (Seq::empty(), Seq::empty(), Seq::empty())
    } else {
        let n = (paths.len() - 1) as int;
        let (r, s, f) = report_fold(paths.drop_last(), steps.take(n), errors.take(n));
        let p = paths.last();
        if destructive(steps[n]) {
            if errors[n] is None {
                (r.push(p), s, f)
            } else {
                (r, s, f.push(p))
            }
        } else if steps[n] == RemovalStep::Refuse {
            (r, s.push(p), f)
        } else if steps[n] == RemovalStep::Fail {
            (r, s, f.push(p))
        } else {
            (r, s, f)
        }
    }
}

/// The failed paths of a report.
pub open spec fn failed_paths(f: Seq<(String, String)>) -> Seq<Seq<char>> {
    f.map_values(|x: (String, String)| x.0@)
}

/// Assemble what the deletions did: `errors[i]` is the error of carrying
/// out `steps[i]` on `paths[i]` (`None` when it succeeded or nothing was
/// attempted), `lstat_errors[i]` the inspection error of a `Fail` step.
pub fn assemble_report(
    paths: &Vec<String>,
    steps: &Vec<RemovalStep>,
    errors: &Vec<Option<String>>,
) -> (report: RemovalReport)
    requires
        steps.len() == paths.len(),
        errors.len() == paths.len(),
    ensures
        (vs(report.removed@), vs(report.skipped@), failed_paths(report.failed@)) == report_fold(
            vs(paths@),
            steps@,
            ovs(errors@),
        ),
{
    let mut removed: Vec<String> = Vec::new();
    let mut skipped: Vec<String> = Vec::new();
    let mut failed: Vec<(String, String)> = Vec::new();
    let mut i: usize = 0;
    while i < paths.len()
        invariant
            i <= paths.len(),
            steps.len() == paths.len(),
            errors.len() == paths.len(),
            (vs(removed@), vs(skipped@), failed_paths(failed@)) == report_fold(
                vs(paths@).take(i as int),
                steps@.take(i as int),
                ovs(errors@).take(i as int),
            ),
        decreases paths.len() - i,
    {
        let ghost before = (vs(removed@), vs(skipped@), failed_paths(failed@));
        assert(vs(paths@).take(i + 1).drop_last() =~= vs(paths@).take(i as int));
        assert(steps@.take(i + 1).take(i as int) =~= steps@.take(i as int));
        assert(ovs(errors@).take(i + 1).take(i as int) =~= ovs(errors@).take(i as int));
        assert(steps@.take(i + 1)[i as int] == steps@[i as int]);
        assert(ovs(errors@).take(i + 1)[i as int] == ovs(errors@)[i as int]);
        let p = &paths[i];
        match steps[i] {
            RemovalStep::Unlink | RemovalStep::RemoveDirAll | RemovalStep::RemoveFile => {
                match &errors[i] {
                    None => {
                        removed.push(p.clone());
                        assert(vs(removed@) =~= before.0.push(p@));
                    },
                    Some(e) => {
                        failed.push((p.clone(), e.clone()));
                        assert(failed_paths(failed@) =~= before.2.push(p@));
                    },
                }
            },
            RemovalStep::Refuse => {
                skipped.push(p.clone());
                assert(vs(skipped@) =~= before.1.push(p@));
            },
            RemovalStep::Fail => {
                let e = match &errors[i] {
                    Some(e) => e.clone(),
                    None => String::new(),
                };
                failed.push((p.clone(), e));
                assert(failed_paths(failed@) =~= before.2.push(p@));
            },
            RemovalStep::Nothing => {},
        }
        i = i + 1;
    }
    assert(vs(paths@).take(paths.len() as int) =~= vs(paths@));
    assert(steps@.take(paths.len() as int) =~= steps@);
    assert(ovs(errors@).take(paths.len() as int) =~= ovs(errors@));
    RemovalReport { removed, skipped, failed }
}

impl RemovalOutcome {
    /// The PREVIEW of `plan`. `blocks` is the caller's own "this removal
    /// takes nothing away" verdict; for a kept shared Master with nothing to
    /// remove the commit refuses, so nothing is promised either. Otherwise
    /// the outcome carries `would_prune`, what the post-delete prune would
    /// drop.
    pub fn preview(plan: RemovalPlan, blocks: bool, would_prune: PruneStatus) -> (r: Self)
        ensures
            r.plan == plan,
            !r.executed,
            !r.absent,
            r.failed_paths@.len() == 0,
            r.prune == (if blocks || (plan.shared_master_kept && plan.paths@.len() == 0) {
                PruneStatus::NotRun
            } else {
                would_prune
            }),
    {
        let prune = if blocks || (plan.shared_master_kept && plan.paths.len() == 0) {
            PruneStatus::NotRun
        } else {
            would_prune
        };
        RemovalOutcome { plan, executed: false, prune, failed_paths: Vec::new(), absent: false }
    }

    /// COMMIT `plan` once its deletions ran, then reconcile the lock(s) of
    /// the removal's scope: [`prune_lock_for_scope`] runs after the deletion
    /// that `report` records, and its status is the outcome's `prune`. So an
    /// executed removal is always followed by a prune of its own scope, and
    /// of no other.
    pub fn commit_pruned<P: Fn(PruneScope, Option<String>) -> Result<Vec<String>, PruneError>>(
        plan: RemovalPlan,
        report: RemovalReport,
        scope: ResourceScope,
        project_root: Option<&str>,
        prune: P,
    ) -> (r: Self)
        requires
            scope_prune_allowed(scope, project_root, prune),
        ensures
            r.executed,
            !r.absent,
            scope_reconciled(scope, project_root, prune, r.prune),
            r.plan.layout == plan.layout,
            r.plan.needs_confirm == plan.needs_confirm,
            r.plan.shared_master_kept == plan.shared_master_kept,
            r.plan.paths@ == report.removed@,
            vs(r.plan.skipped@) == vs(plan.skipped@) + vs(report.skipped@) + failed_paths(report.failed@),
            vs(r.failed_paths@) == failed_paths(report.failed@),
    {
        let status = prune_lock_for_scope(scope, project_root, prune);
        RemovalOutcome::commit(plan, report, status)
    }

    /// COMMIT `plan` once its deletions ran: the plan's paths become what
    /// was actually removed, refused and failed paths join `skipped`, the
    /// failures are kept apart as well, and `prune` is the post-delete lock
    /// prune's status.
    pub fn commit(plan: RemovalPlan, report: RemovalReport, prune: PruneStatus) -> (r: Self)
        ensures
            r.executed,
            !r.absent,
            r.prune == prune,
            r.plan.layout == plan.layout,
            r.plan.needs_confirm == plan.needs_confirm,
            r.plan.shared_master_kept == plan.shared_master_kept,
            r.plan.paths@ == report.removed@,
            vs(r.plan.skipped@) == vs(plan.skipped@) + vs(report.skipped@) + failed_paths(
                report.failed@,
            ),
            vs(r.failed_paths@) == failed_paths(report.failed@),
    {
        let mut skipped = plan.skipped;
        append_strings(&mut skipped, &report.skipped);
        let mut failed_paths_v: Vec<String> = Vec::new();
        let mut i: usize = 0;
        while i < report.failed.len()
            invariant
                i <= report.failed.len(),
                failed_paths_v.len() == i,
                vs(failed_paths_v@) == failed_paths(report.failed@.take(i as int)),
            decreases report.failed.len() - i,
        {
            let ghost before = failed_paths_v@;
            let p = report.failed[i].0.clone();
            assert(p@ == report.failed@[i as int].0@);
            failed_paths_v.push(p);
            assert(failed_paths_v@ == before.push(p));
            assert forall|j: int| 0 <= j < i + 1 implies #[trigger] vs(failed_paths_v@)[j] == failed_paths(report.failed@.take(i + 1))[j] by {
                if j < i {
                    assert(vs(before)[j] == failed_paths(report.failed@.take(i as int))[j]);
                }
            }
            assert(vs(failed_paths_v@) =~= failed_paths(report.failed@.take(i + 1)));
            i = i + 1;
        }
        assert(report.failed@.take(report.failed.len() as int) =~= report.failed@);
        let ghost s0 = vs(skipped@);
        append_strings(&mut skipped, &failed_paths_v);
        assert(vs(skipped@) =~= s0 + vs(failed_paths_v@));
        assert(vs(plan.skipped@ + report.skipped@) =~= vs(plan.skipped@) + vs(report.skipped@));
        RemovalOutcome {
            plan: RemovalPlan {
                layout: plan.layout,
                paths: report.removed,
                skipped,
                needs_confirm: plan.needs_confirm,
                shared_master_kept: plan.shared_master_kept,
            },
            executed: true,
            prune,
            failed_paths: failed_paths_v,
            absent: false,
        }
    }
}

/// One agent's skill read dirs at a scope, resolved.
#[derive(Debug)]
pub struct AgentReadDirs {
    pub id: String,
    pub read_dirs: Vec<String>,
}

/// Whether some read dir of `dirs` contains `target`.
pub open spec fn reads_into(target: Seq<char>, dirs: Seq<Seq<char>>) -> bool {
    exists|i: int| 0 <= i < dirs.len() && within(target, #[trigger] dirs[i])
}

/// The agents outside `requested` that read `target` through one of their
/// read dirs (containment, since discovery recurses), in roster order.
pub open spec fn readers_outside_spec(target: Seq<char>, agents: Seq<AgentReadDirs>, requested: Seq<Seq<char>>) -> Seq<
    Seq<char>,
>
    decreases agents.len(),
{
    if agents.len() == 0 {
        Seq::empty()
    } else {
        let rest = readers_outside_spec(target, agents.drop_last(), requested);
        let a = agents.last();
        if !requested.contains(a.id@) && reads_into(target, vs(a.read_dirs@)) {
            rest.push(a.id@)
        } else {
            rest
        }
    }
}

fn reads_target(target: &str, dirs: &Vec<String>) -> (r: bool)
    ensures
        r == reads_into(target@, vs(dirs@)),
{
    let mut i: usize = 0;
    while i < dirs.len()
        invariant
            i <= dirs.len(),
            forall|j: int| 0 <= j < i ==> !within(target@, #[trigger] vs(dirs@)[j]),
        decreases dirs.len() - i,
    {
        if path_within(target, dirs[i].as_str()) {
            assert(within(target@, vs(dirs@)[i as int]));
            return true;
        }
        i = i + 1;
    }
    false
}

/// The agents outside `requested` that still read the skill dir whose
/// resolved path is `target`: a removal requested for some of a dir's readers
/// must not take it from the others. Answered from each agent's own resolved
/// read dirs, so an agent whose config fails to load still counts.
pub fn skill_dir_readers_outside(target: &str, agents: &Vec<AgentReadDirs>, requested: &Vec<String>) -> (out: Vec<
    String,
>)
    ensures
        vs(out@) == readers_outside_spec(target@, agents@, vs(requested@)),
{
    let mut out: Vec<String> = Vec::new();
    let mut i: usize = 0;
    while i < agents.len()
        invariant
            i <= agents.len(),
            vs(out@) == readers_outside_spec(target@, agents@.take(i as int), vs(requested@)),
        decreases agents.len() - i,
    {
        assert(agents@.take(i + 1).drop_last() =~= agents@.take(i as int));
        let a = &agents[i];
        if !contains_str(requested, a.id.as_str()) && reads_target(target, &a.read_dirs) {
            let ghost before = vs(out@);
            out.push(a.id.clone());
            assert(vs(out@) =~= before.push(a.id@));
        }
        i = i + 1;
    }
    assert(agents@.take(agents.len() as int) =~= agents@);
    out
}

} // verus!
