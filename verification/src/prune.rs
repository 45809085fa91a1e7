//! Disk-reconciled lock pruning.
//!
//! A lock entry is pruned when no folder for its skill is left on disk in its
//! scope. Pruning only ever runs against a scan that provably succeeded: any
//! scan error aborts before a lock is touched. A global prune never touches the
//! project lock and vice versa, and a project prune needs a project root.
//!
//! The directory probes and the scanner's listings are taken by the caller and
//! handed in as [`DirScan`] values; everything decided from them is here.

use vstd::prelude::*;

use crate::lock::quoted_message;
use crate::models::{Locks, ResourceScope};
use crate::paths::{file_name, file_name_spec};
use crate::removal::{contains_str, vs, PruneStatus};
use crate::sanitize::{sanitize_name, sanitized};
use crate::table::{views, LockTable};
use crate::text::owned;

verus! {

/// Which lock + disk set a prune operates on.
#[derive(Debug, Clone, Copy, PartialEq, Eq, Structural)]
pub enum PruneScope {
    /// The global lock, reconciled against every agent's global skill dirs.
    Global,
    /// The project lock, reconciled against the project's skill dirs only.
    Project,
}

/// Why a directory scan could not prove what is on disk.
#[derive(Debug, PartialEq, Eq)]
pub enum ScanError {
    /// The path exists but could not be read.
    PermissionDenied(String),
    /// The path does not exist.
    PathNotFound(String),
}

/// Why a prune did not run (the lock is left unchanged on error).
#[derive(Debug)]
pub enum PruneError {
    /// A disk scan failed; no pruning was performed.
    Scan(ScanError),
    /// Writing the lock failed.
    Io(String),
    /// The interprocess mutation lock could not be taken; nothing was scanned
    /// and nothing was written.
    Locked(String),
    /// A project-scope prune was requested without a project root.
    MissingProjectRoot,
    /// The lock itself could not be read (named by the payload).
    UnreadableLock(String),
}

pub open spec fn scan_error_message(e: ScanError) -> Seq<char> {
    match e {
        ScanError::PermissionDenied(p) => "permission denied: "@ + p@,
        ScanError::PathNotFound(p) => "path not found: "@ + p@,
    }
}

pub open spec fn prune_error_message(e: PruneError) -> Seq<char> {
    match e {
        PruneError::Scan(s) => "disk scan failed, no pruning performed: "@ + scan_error_message(s),
        PruneError::Io(m) => "failed to write lock: "@ + m@,
        PruneError::Locked(m) => m@,
        PruneError::MissingProjectRoot => "project prune requires a project root"@,
        PruneError::UnreadableLock(what) => "the skill lock could not be read, so no prune can be planned: "@
            + what@ + "; resolve it (unresolved merge conflict?) and retry"@,
    }
}

/// `prefix` followed by `s`.
fn prefixed(prefix: &str, s: &str) -> (r: String)
    ensures
        r@ == prefix@ + s@,
{
    let r = quoted_message(prefix, s, "");
    proof {
        reveal_strlit("");
        assert(prefix@ + s@ + ""@ =~= prefix@ + s@);
    }
    r
}

impl ScanError {
    /// An exact copy.
    pub fn duplicate(&self) -> (r: Self)
        ensures
            r == *self,
    {
        match self {
            ScanError::PermissionDenied(p) => ScanError::PermissionDenied(p.clone()),
            ScanError::PathNotFound(p) => ScanError::PathNotFound(p.clone()),
        }
    }

    /// The error's message.
    pub fn message(&self) -> (r: String)
        ensures
            r@ == scan_error_message(*self),
    {
        match self {
            ScanError::PermissionDenied(p) => prefixed("permission denied: ", p.as_str()),
            ScanError::PathNotFound(p) => prefixed("path not found: ", p.as_str()),
        }
    }
}

impl PruneError {
    /// The error's message.
    pub fn message(&self) -> (r: String)
        ensures
            r@ == prune_error_message(*self),
    {
        match self {
            PruneError::Scan(s) => {
                let m = s.message();
                prefixed("disk scan failed, no pruning performed: ", m.as_str())
            },
            PruneError::Io(m) => prefixed("failed to write lock: ", m.as_str()),
            PruneError::Locked(m) => m.clone(),
            PruneError::MissingProjectRoot => owned("project prune requires a project root"),
            PruneError::UnreadableLock(what) => quoted_message(
                "the skill lock could not be read, so no prune can be planned: ",
                what.as_str(),
                "; resolve it (unresolved merge conflict?) and retry",
            ),
        }
    }
}

/// A locked skill counts as present when the folder name its key sanitizes
/// to is among the folder names found on disk.
pub open spec fn present_on_disk(key: Seq<char>, disk: Seq<Seq<char>>) -> bool {
    disk.contains(sanitized(key))
}

/// Whether the skill locked as `key` still has a folder among `disk`.
pub fn skill_present_on_disk(key: &str, disk: &Vec<String>) -> (r: bool)
    ensures
        r == present_on_disk(key@, vs(disk@)),
{
    let folder = sanitize_name(key);
    contains_str(disk, folder.as_str())
}

/// The keys of `keys` that are not present on disk, in order.
pub open spec fn orphans(keys: Seq<Seq<char>>, disk: Seq<Seq<char>>) -> Seq<Seq<char>>
    decreases keys.len(),
{
    if keys.len() == 0 {
        Seq::empty()
    } else {
        let rest = orphans(keys.drop_last(), disk);
        if present_on_disk(keys.last(), disk) {
            rest
        } else {
            rest.push(keys.last())
        }
    }
}

pub proof fn lemma_contains_push(s: Seq<Seq<char>>, x: Seq<char>, k: Seq<char>)
    ensures
        s.push(x).contains(k) == (s.contains(k) || x == k),
{
    if s.push(x).contains(k) {
        let j = choose|j: int| 0 <= j < s.push(x).len() && s.push(x)[j] == k;
        if j < s.len() {
            assert(s[j] == k);
        }
    }
    if s.contains(k) {
        let j = choose|j: int| 0 <= j < s.len() && s[j] == k;
        assert(s.push(x)[j] == k);
    }
    if x == k {
        assert(s.push(x)[s.len() as int] == k);
    }
}

pub proof fn lemma_contains_drop_last(s: Seq<Seq<char>>, k: Seq<char>)
    requires
        s.len() > 0,
    ensures
        s.contains(k) == (s.drop_last().contains(k) || s.last() == k),
{
    assert(s =~= s.drop_last().push(s.last()));
    lemma_contains_push(s.drop_last(), s.last(), k);
}

/// A key is an orphan exactly when it is locked and not present on disk.
pub proof fn lemma_orphans_contains(keys: Seq<Seq<char>>, disk: Seq<Seq<char>>, k: Seq<char>)
    ensures
        orphans(keys, disk).contains(k) == (keys.contains(k) && !present_on_disk(k, disk)),
    decreases keys.len(),
{
    if keys.len() > 0 {
        lemma_orphans_contains(keys.drop_last(), disk, k);
        lemma_contains_drop_last(keys, k);
        if !present_on_disk(keys.last(), disk) {
            lemma_contains_push(orphans(keys.drop_last(), disk), keys.last(), k);
        }
    }
}

/// The keys of `keys` whose skills are gone from `disk`, in order.
pub fn collect_orphans(keys: &Vec<String>, disk: &Vec<String>) -> (out: Vec<String>)
    ensures
        views(out@) == orphans(views(keys@), vs(disk@)),
{
    let mut out: Vec<String> = Vec::new();
    let mut i: usize = 0;
    while i < keys.len()
        invariant
            i <= keys.len(),
            views(out@) == orphans(views(keys@).take(i as int), vs(disk@)),
        decreases keys.len() - i,
    {
        let ghost prefix = views(keys@).take(i as int);
        let ghost next = views(keys@).take(i + 1);
        assert(next.drop_last() =~= prefix);
        assert(next.last() == keys@[i as int]@);
        if !skill_present_on_disk(keys[i].as_str(), disk) {
            let ghost before = out@;
            out.push(keys[i].clone());
            assert(views(out@) =~= views(before).push(keys@[i as int]@));
        }
        i = i + 1;
    }
    assert(views(keys@).take(keys.len() as int) =~= views(keys@));
    out
}

/// `after` is `before` with the entries of every orphan dropped, and
/// `removed` lists those orphans in table order.
pub open spec fn pruned<E>(
    before: LockTable<E>,
    after: LockTable<E>,
    disk: Seq<Seq<char>>,
    removed: Seq<Seq<char>>,
) -> bool {
    &&& after.wf()
    &&& removed == orphans(before.keys(), disk)
    &&& forall|k: Seq<char>| #[trigger] after.has(k) == (before.has(k) && present_on_disk(k, disk))
    &&& forall|k: Seq<char>| #[trigger]
        after.lookup(k) == if present_on_disk(k, disk) {
            before.lookup(k)
        } else {
            None
        }
}

/// Drop every entry of `table` whose skill is gone from `disk`; return the
/// dropped keys.
pub fn prune_table<E>(table: &mut LockTable<E>, disk: &Vec<String>) -> (removed: Vec<String>)
    requires
        old(table).wf(),
    ensures
        pruned(*old(table), *final(table), vs(disk@), views(removed@)),
{
    let ghost t0: LockTable<E> = *table;
    let ghost d = vs(disk@);
    let keys = table.key_list();
    let removed = collect_orphans(&keys, disk);
    let mut i: usize = 0;
    while i < removed.len()
        invariant
            table.wf(),
            t0.wf(),
            d == vs(disk@),
            i <= removed.len(),
            views(removed@) == orphans(t0.keys(), d),
            forall|k: Seq<char>| #[trigger]
                table.has(k) == (t0.has(k) && !views(removed@).take(i as int).contains(k)),
            forall|k: Seq<char>| #[trigger]
                table.lookup(k) == if views(removed@).take(i as int).contains(k) {
                    None
                } else {
                    t0.lookup(k)
                },
        decreases removed.len() - i,
    {
        let ghost r = removed@[i as int]@;
        proof {
            assert(views(removed@).take(i + 1) =~= views(removed@).take(i as int).push(r));
            assert forall|k: Seq<char>| views(removed@).take(i + 1).contains(k) == (views(
                removed@,
            ).take(i as int).contains(k) || r == k) by {
                lemma_contains_push(views(removed@).take(i as int), r, k);
            }
        }
        let _ = table.remove(removed[i].as_str());
        i = i + 1;
    }
    proof {
        assert(views(removed@).take(removed.len() as int) =~= views(removed@));
        assert forall|k: Seq<char>| #[trigger]
            table.has(k) == (t0.has(k) && present_on_disk(k, d)) by {
            lemma_orphans_contains(t0.keys(), d, k);
        }
        assert forall|k: Seq<char>| #[trigger]
            table.lookup(k) == if present_on_disk(k, d) {
                t0.lookup(k)
            } else {
                None
            } by {
            lemma_orphans_contains(t0.keys(), d, k);
            t0.lemma_has_lookup(k);
        }
    }
    removed
}

/// Drop the lock entries of `scope` whose sanitized name is absent from
/// `disk_names`; return the dropped keys. `disk_names` must come from a
/// provably successful scan. The other scope's lock is never touched.
pub fn prune_lock(
    scope: PruneScope,
    disk_names: &Vec<String>,
    project_root: Option<&str>,
    locks: &mut Locks,
) -> (r: Result<Vec<String>, PruneError>)
    requires
        old(locks).wf(),
    ensures
        final(locks).wf(),
        scope == PruneScope::Project && project_root is None ==> (r matches Err(
            PruneError::MissingProjectRoot,
        )) && *final(locks) == *old(locks),
        scope == PruneScope::Global ==> r is Ok && pruned(
            old(locks).global,
            final(locks).global,
            vs(disk_names@),
            views(r->Ok_0@),
        ) && final(locks).project == old(locks).project,
        scope == PruneScope::Project && project_root is Some ==> r is Ok && pruned(
            old(locks).project,
            final(locks).project,
            vs(disk_names@),
            views(r->Ok_0@),
        ) && final(locks).global == old(locks).global,
{
    match scope {
        PruneScope::Global => Ok(prune_table(&mut locks.global, disk_names)),
        PruneScope::Project => match project_root {
            None => Err(PruneError::MissingProjectRoot),
            Some(_) => Ok(prune_table(&mut locks.project, disk_names)),
        },
    }
}

/// What the caller observed of one skill dir before a prune.
#[derive(Debug)]
pub struct DirScan {
    /// The directory.
    pub dir: String,
    /// `Some(true)`: it exists; `Some(false)`: it is genuinely absent; `None`:
    /// whether it exists could not be determined (unreadable parent, dropped
    /// mount, a file in the way).
    pub exists: Option<bool>,
    /// What the scanner returned for it: the paths of the skill folders found
    /// directly under it, or its error. Unused unless the dir exists.
    pub found: Result<Vec<String>, ScanError>,
}

/// `names` with `n` added unless it is already there.
pub open spec fn add_name(names: Seq<Seq<char>>, n: Seq<char>) -> Seq<Seq<char>> {
    if names.contains(n) {
        names
    } else {
        names.push(n)
    }
}

/// One found folder: its name is added unless its path is excluded.
pub open spec fn found_step(acc: Seq<Seq<char>>, path: Seq<char>, excluded: Seq<Seq<char>>) -> Seq<
    Seq<char>,
> {
    if excluded.contains(path) {
        acc
    } else {
        match file_name_spec(path) {
            Some(n) => add_name(acc, n),
            None => acc,
        }
    }
}

pub open spec fn add_found(acc: Seq<Seq<char>>, found: Seq<Seq<char>>, excluded: Seq<Seq<char>>) -> Seq<
    Seq<char>,
>
    decreases found.len(),
{
    if found.len() == 0 {
        acc
    } else {
        add_found(found_step(acc, found[0], excluded), found.drop_first(), excluded)
    }
}

/// One dir: absent adds nothing, undeterminable aborts, otherwise the
/// scanner's answer is taken.
pub open spec fn scan_step(acc: Seq<Seq<char>>, s: DirScan, excluded: Seq<Seq<char>>) -> Result<
    Seq<Seq<char>>,
    ScanError,
> {
    match s.exists {
        Some(false) => Ok(acc),
        None => Err(ScanError::PermissionDenied(s.dir)),
        Some(true) => match s.found {
            Err(e) => Err(e),
            Ok(v) => Ok(add_found(acc, vs(v@), excluded)),
        },
    }
}

pub open spec fn scan_from(acc: Seq<Seq<char>>, scans: Seq<DirScan>, excluded: Seq<Seq<char>>) -> Result<
    Seq<Seq<char>>,
    ScanError,
>
    decreases scans.len(),
{
    if scans.len() == 0 {
        Ok(acc)
    } else {
        match scan_step(acc, scans[0], excluded) {
            Err(e) => Err(e),
            Ok(a) => scan_from(a, scans.drop_first(), excluded),
        }
    }
}

/// The folder names found under `scans`, in order of discovery and without
/// repeats, skipping found paths listed in `excluded`; or the first error.
pub open spec fn disk_names(scans: Seq<DirScan>, excluded: Seq<Seq<char>>) -> Result<
    Seq<Seq<char>>,
    ScanError,
> {
    scan_from(Seq::empty(), scans, excluded)
}

/// Whether an exec result matches a spec result over the same error type.
pub open spec fn names_match(r: Result<Vec<String>, ScanError>, s: Result<Seq<Seq<char>>, ScanError>) -> bool {
    match (r, s) {
        (Ok(v), Ok(w)) => vs(v@) == w,
        (Err(e), Err(f)) => e == f,
        _ => false,
    }
}

fn add_found_names(acc: &mut Vec<String>, found: &Vec<String>, excluded: &Vec<String>)
    ensures
        vs(final(acc)@) == add_found(vs(old(acc)@), vs(found@), vs(excluded@)),
{
    let mut j: usize = 0;
    assert(vs(found@).skip(0) =~= vs(found@));
    while j < found.len()
        invariant
            j <= found.len(),
            add_found(vs(acc@), vs(found@).skip(j as int), vs(excluded@)) == add_found(
                vs(old(acc)@),
                vs(found@),
                vs(excluded@),
            ),
        decreases found.len() - j,
    {
        let ghost rest = vs(found@).skip(j as int);
        assert(rest[0] == found@[j as int]@);
        assert(rest.drop_first() =~= vs(found@).skip(j + 1));
        let ghost before = vs(acc@);
        if !contains_str(excluded, found[j].as_str()) {
            match file_name(found[j].as_str()) {
                Some(n) => {
                    if !contains_str(acc, n.as_str()) {
                        let ghost nv = n@;
                        acc.push(n);
                        assert(vs(acc@) =~= before.push(nv));
                    }
                },
                None => {},
            }
        }
        j = j + 1;
    }
    assert(vs(found@).skip(found.len() as int) =~= Seq::<Seq<char>>::empty());
}

/// The folder names found under the scanned dirs, minus found paths listed
/// in `excluded`. A dir that is genuinely absent contributes nothing; one whose
/// existence could not be determined, or whose scan failed, aborts the whole
/// collection so no caller prunes against a partial view.
pub fn collect_disk_dir_names_except(scans: &Vec<DirScan>, excluded: &Vec<String>) -> (r: Result<
    Vec<String>,
    ScanError,
>)
    ensures
        names_match(r, disk_names(scans@, vs(excluded@))),
{
    let ghost ex = vs(excluded@);
    let mut acc: Vec<String> = Vec::new();
    let mut i: usize = 0;
    assert(scans@.skip(0) =~= scans@);
    assert(vs(acc@) =~= Seq::<Seq<char>>::empty());
    while i < scans.len()
        invariant
            i <= scans.len(),
            ex == vs(excluded@),
            scan_from(vs(acc@), scans@.skip(i as int), ex) == disk_names(scans@, ex),
        decreases scans.len() - i,
    {
        let ghost rest = scans@.skip(i as int);
        assert(rest[0] == scans@[i as int]);
        assert(rest.drop_first() =~= scans@.skip(i + 1));
        let s = &scans[i];
        match s.exists {
            Some(false) => {},
            None => {
                return Err(ScanError::PermissionDenied(s.dir.clone()));
            },
            Some(true) => match &s.found {
                Err(e) => {
                    return Err(e.duplicate());
                },
                Ok(v) => {
                    add_found_names(&mut acc, v, excluded);
                },
            },
        }
        i = i + 1;
    }
    assert(scans@.skip(scans.len() as int) =~= Seq::<DirScan>::empty());
    Ok(acc)
}

/// The folder names found under the scanned dirs (see
/// [`collect_disk_dir_names_except`]).
pub fn collect_disk_dir_names(scans: &Vec<DirScan>) -> (r: Result<Vec<String>, ScanError>)
    ensures
        names_match(r, disk_names(scans@, Seq::empty())),
{
    let none: Vec<String> = Vec::new();
    assert(vs(none@) =~= Seq::<Seq<char>>::empty());
    collect_disk_dir_names_except(scans, &none)
}

/// The lock a scope prunes, next to the untouched other one.
pub open spec fn scope_pruned(
    scope: PruneScope,
    before: Locks,
    after: Locks,
    disk: Seq<Seq<char>>,
    removed: Seq<Seq<char>>,
) -> bool {
    match scope {
        PruneScope::Global => pruned(before.global, after.global, disk, removed) && after.project
            == before.project,
        PruneScope::Project => pruned(before.project, after.project, disk, removed) && after.global
            == before.global,
    }
}

/// Scan, then prune. `guard` is the outcome of taking the interprocess
/// mutation lock, held by the caller across the scan and the rewrite. The
/// checks run in order: a project scope without a root, the guard, the scan;
/// any of them failing leaves both locks untouched.
pub fn prune_lock_from_dirs(
    scope: PruneScope,
    scans: &Vec<DirScan>,
    project_root: Option<&str>,
    guard: Result<(), String>,
    locks: &mut Locks,
) -> (r: Result<Vec<String>, PruneError>)
    requires
        old(locks).wf(),
    ensures
        final(locks).wf(),
        r is Err ==> *final(locks) == *old(locks),
        scope == PruneScope::Project && project_root is None ==> (r matches Err(
            PruneError::MissingProjectRoot,
        )),
        !(scope == PruneScope::Project && project_root is None) ==> match guard {
            Err(m) => r == Err::<Vec<String>, PruneError>(PruneError::Locked(m)),
            Ok(_) => match disk_names(scans@, Seq::empty()) {
                Err(e) => r == Err::<Vec<String>, PruneError>(PruneError::Scan(e)),
                Ok(d) => r is Ok && scope_pruned(scope, *old(locks), *final(locks), d, views(r->Ok_0@)),
            },
        },
{
    if scope == PruneScope::Project && project_root.is_none() {
        return Err(PruneError::MissingProjectRoot);
    }
    match guard {
        Err(m) => {
            return Err(PruneError::Locked(m));
        },
        Ok(()) => {},
    }
    let disk = match collect_disk_dir_names(scans) {
        Err(e) => {
            return Err(PruneError::Scan(e));
        },
        Ok(d) => d,
    };
    prune_lock(scope, &disk, project_root, locks)
}

/// What the unreadable-lock error names for a scope.
pub open spec fn lock_label(scope: PruneScope) -> Seq<char> {
    match scope {
        PruneScope::Global => "global skill lock"@,
        PruneScope::Project => "skills-lock.json"@,
    }
}

/// The current keys of a scope's lock.
pub fn locked_keys(scope: PruneScope, locks: &Locks) -> (out: Vec<String>)
    ensures
        views(out@) == match scope {
            PruneScope::Global => locks.global.keys(),
            PruneScope::Project => locks.project.keys(),
        },
{
    match scope {
        PruneScope::Global => locks.global.key_list(),
        PruneScope::Project => locks.project.key_list(),
    }
}

/// Dry run: the lock entries a prune WOULD drop, without touching a lock.
/// `lock_keys` are the scope lock's keys, `None` when the lock could not be
/// read; that is refused rather than read as "nothing to drop".
pub fn preview_prune_from_dirs(
    scope: PruneScope,
    scans: &Vec<DirScan>,
    project_root: Option<&str>,
    lock_keys: Option<&Vec<String>>,
) -> (r: Result<Vec<String>, PruneError>)
    ensures
        scope == PruneScope::Project && project_root is None ==> (r matches Err(
            PruneError::MissingProjectRoot,
        )),
        !(scope == PruneScope::Project && project_root is None) ==> match disk_names(
            scans@,
            Seq::empty(),
        ) {
            Err(e) => r == Err::<Vec<String>, PruneError>(PruneError::Scan(e)),
            Ok(d) => match lock_keys {
                None => (r matches Err(PruneError::UnreadableLock(what)) && what@ == lock_label(
                    scope,
                )),
                Some(keys) => r is Ok && views(r->Ok_0@) == orphans(views(keys@), d),
            },
        },
{
    if scope == PruneScope::Project && project_root.is_none() {
        return Err(PruneError::MissingProjectRoot);
    }
    let disk = match collect_disk_dir_names(scans) {
        Err(e) => {
            return Err(PruneError::Scan(e));
        },
        Ok(d) => d,
    };
    match lock_keys {
        None => {
            let what = match scope {
                PruneScope::Global => owned("global skill lock"),
                PruneScope::Project => owned("skills-lock.json"),
            };
            Err(PruneError::UnreadableLock(what))
        },
        Some(keys) => {
            let out = collect_orphans(keys, &disk);
            assert(vs(disk@) =~= views(disk@));
            Ok(out)
        },
    }
}

/// `r` is `Failed` with this reason and these already-pruned keys.
pub open spec fn failed_with(r: PruneStatus, reason: Seq<char>, pruned: Seq<Seq<char>>) -> bool {
    match r {
        PruneStatus::Failed { reason: m, pruned: p } => m@ == reason && vs(p@) == pruned,
        _ => false,
    }
}

/// `r` is `Pruned` with these keys.
pub open spec fn pruned_with(r: PruneStatus, keys: Seq<Seq<char>>) -> bool {
    match r {
        PruneStatus::Pruned(k) => vs(k@) == keys,
        _ => false,
    }
}

/// The status a single-scope prune result maps to.
pub open spec fn status_of(res: Result<Vec<String>, PruneError>, r: PruneStatus) -> bool {
    match res {
        Ok(k) => pruned_with(r, vs(k@)),
        Err(e) => failed_with(r, prune_error_message(e), Seq::empty()),
    }
}

/// Map a single prune result into a [`PruneStatus`]: success is `Pruned`,
/// an error is `Failed` with nothing pruned (a single-scope prune leaves its
/// lock unchanged on error).
pub fn prune_status(result: Result<Vec<String>, PruneError>) -> (r: PruneStatus)
    ensures
        status_of(result, r),
{
    match result {
        Ok(keys) => PruneStatus::Pruned(keys),
        Err(e) => {
            let none: Vec<String> = Vec::new();
            assert(vs(none@) =~= Seq::<Seq<char>>::empty());
            PruneStatus::Failed { reason: e.message(), pruned: none }
        },
    }
}

/// The status of a `Both` prune whose global half dropped `global`, given the
/// project half's result.
pub open spec fn combined(global: Seq<Seq<char>>, project: Result<Vec<String>, PruneError>, r: PruneStatus) -> bool {
    match project {
        Ok(p) => pruned_with(r, global + vs(p@)),
        Err(e) => failed_with(r, prune_error_message(e), global),
    }
}

/// Fold the global prune result with a lazy project prune. The project prune
/// runs only when the global one succeeded: a global failure is reported with
/// nothing pruned and the project lock never touched. A project failure after
/// a global success is a partial mutation and is reported as `Failed` carrying
/// the global keys already dropped.
pub fn combine_prune<F: FnOnce() -> Result<Vec<String>, PruneError>>(
    global: Result<Vec<String>, PruneError>,
    project: Option<F>,
) -> (r: PruneStatus)
    requires
        global is Ok && project is Some ==> project->Some_0.requires(()),
    ensures
        match global {
            Err(e) => failed_with(r, prune_error_message(e), Seq::empty()),
            Ok(g) => match project {
                None => pruned_with(r, vs(g@)),
                Some(f) => exists|p: Result<Vec<String>, PruneError>| #[trigger]
                    f.ensures((), p) && combined(vs(g@), p, r),
            },
        },
{
    let mut keys = match global {
        Ok(k) => k,
        Err(e) => {
            let none: Vec<String> = Vec::new();
            assert(vs(none@) =~= Seq::<Seq<char>>::empty());
            return PruneStatus::Failed { reason: e.message(), pruned: none };
        },
    };
    match project {
        None => PruneStatus::Pruned(keys),
        Some(f) => {
            let res = f();
            let ghost g = vs(keys@);
            match res {
                Ok(p) => {
                    let ghost pv = vs(p@);
                    append_all(&mut keys, p);
                    let r = PruneStatus::Pruned(keys);
                    assert(combined(g, res, r));
                    r
                },
                Err(e) => {
                    let r = PruneStatus::Failed { reason: e.message(), pruned: keys };
                    assert(combined(g, res, r));
                    r
                },
            }
        },
    }
}

/// Move every string of `more` onto the end of `out`.
fn append_all(out: &mut Vec<String>, more: Vec<String>)
    ensures
        vs(final(out)@) == vs(old(out)@) + vs(more@),
{
    let mut i: usize = 0;
    while i < more.len()
        invariant
            i <= more.len(),
            vs(out@) == vs(old(out)@) + vs(more@).take(i as int),
        decreases more.len() - i,
    {
        let ghost before = vs(out@);
        out.push(more[i].clone());
        assert(vs(out@) =~= before.push(more@[i as int]@));
        assert(vs(more@).take(i + 1) =~= vs(more@).take(i as int).push(more@[i as int]@));
        i = i + 1;
    }
    assert(vs(more@).take(more.len() as int) =~= vs(more@));
}

/// The single-scope prunes a scope's reconcile may make: the global one
/// for `GlobalOnly` and `Both`, the project one of `project_root` for
/// `ProjectOnly`, and for `Both` the project one only after a global prune
/// that succeeded.
pub open spec fn scope_prune_allowed<P: Fn(PruneScope, Option<String>) -> Result<Vec<String>, PruneError>>(
    scope: ResourceScope,
    project_root: Option<&str>,
    prune: P,
) -> bool {
    &&& (scope != ResourceScope::ProjectOnly ==> prune.requires((PruneScope::Global, None::<String>)))
    &&& (scope == ResourceScope::ProjectOnly ==> forall|x: String|
            project_root matches Some(root) && x@ == root@ ==> #[trigger] prune.requires(
                (PruneScope::Project, Some(x)),
            ))
    &&& (scope == ResourceScope::Both ==> forall|g: Result<Vec<String>, PruneError>, x: String|
            #![trigger prune.ensures((PruneScope::Global, None::<String>), g), prune.requires((PruneScope::Project, Some(x)))]
            prune.ensures((PruneScope::Global, None::<String>), g) && g is Ok && (project_root matches Some(root)
                && x@ == root@) ==> prune.requires((PruneScope::Project, Some(x))))
}

/// What a scope's reconcile reports, over what its single-scope prunes
/// returned (see [`prune_lock_for_scope`]).
pub open spec fn scope_reconciled<P: Fn(PruneScope, Option<String>) -> Result<Vec<String>, PruneError>>(
    scope: ResourceScope,
    project_root: Option<&str>,
    prune: P,
    r: PruneStatus,
) -> bool {
    &&& (scope == ResourceScope::GlobalOnly ==> exists|res: Result<Vec<String>, PruneError>| #[trigger]
            prune.ensures((PruneScope::Global, None::<String>), res) && status_of(res, r))
    &&& (scope == ResourceScope::ProjectOnly ==> match project_root {
            None => r is NotRun,
            Some(root) => exists|x: String, res: Result<Vec<String>, PruneError>| #[trigger]
                prune.ensures((PruneScope::Project, Some(x)), res) && x@ == root@ && status_of(res, r),
        })
    &&& (scope == ResourceScope::Both ==> exists|g: Result<Vec<String>, PruneError>| #[trigger]
            prune.ensures((PruneScope::Global, None::<String>), g) && match g {
                Err(e) => failed_with(r, prune_error_message(e), Seq::empty()),
                Ok(gk) => match project_root {
                    None => pruned_with(r, vs(gk@)),
                    Some(root) => exists|x: String, p: Result<Vec<String>, PruneError>| #[trigger]
                        prune.ensures((PruneScope::Project, Some(x)), p) && x@ == root@ && combined(
                            vs(gk@),
                            p,
                            r,
                        ),
                },
            })
}

/// Reconcile the lock(s) of `scope` against disk after a removal and report
/// the outcome. `prune` runs one single-scope prune (scan and lock rewrite) for
/// a scope and its root.
///
/// `GlobalOnly` prunes the global lock; `ProjectOnly` the project lock, or
/// nothing (`NotRun`) without a root; `Both` prunes the global lock, then,
/// only when that succeeded and there is a root, the project lock, folded by
/// [`combine_prune`]. The `requires` admits exactly those calls: the global
/// prune for `GlobalOnly` and `Both`, the project prune of this root for
/// `ProjectOnly`, and for `Both` only after a global prune that succeeded;
/// so `ProjectOnly` without a root prunes nothing, and a failed global prune
/// is never followed by a project one.
pub fn prune_lock_for_scope<P: Fn(PruneScope, Option<String>) -> Result<Vec<String>, PruneError>>(
    scope: ResourceScope,
    project_root: Option<&str>,
    prune: P,
) -> (r: PruneStatus)
    requires
        scope_prune_allowed(scope, project_root, prune),
    ensures
        scope_reconciled(scope, project_root, prune, r),
{
    match scope {
        ResourceScope::GlobalOnly => {
            let res = prune(PruneScope::Global, None);
            prune_status(res)
        },
        ResourceScope::ProjectOnly => match project_root {
            Some(root) => {
                let x = owned(root);
                let ghost xv = x;
                let res = prune(PruneScope::Project, Some(x));
                let r = prune_status(res);
                assert(prune.ensures((PruneScope::Project, Some(xv)), res) && xv@ == root@);
                r
            },
            None => PruneStatus::NotRun,
        },
        ResourceScope::Both => {
            let global = prune(PruneScope::Global, None);
            let ghost g = global;
            let project = match project_root {
                Some(root) => {
                    let x = owned(root);
                    let ghost xv = x;
                    let run = move || -> (res: PruneResult)
                        requires
                            prune.requires((PruneScope::Project, Some(xv))),
                        ensures
                            prune.ensures((PruneScope::Project, Some(xv)), res),
                        {
                            let res = prune(PruneScope::Project, Some(x));
                            res
                        };
                    Some(run)
                },
                None => None,
            };
            proof {
                if global is Ok && project_root is Some {
                    assert(prune.ensures((PruneScope::Global, None::<String>), g));
                }
            }
            combine_prune(global, project)
        },
    }
}

/// The result of one single-scope prune.
pub type PruneResult = Result<Vec<String>, PruneError>;

/// What the caller observed of one scope for a prune preview.
#[derive(Debug)]
pub struct ScopeObservation {
    /// The scope lock's keys, `None` when the lock could not be read.
    pub keys: Option<Vec<String>>,
    /// The scope's skill dirs, as scanned.
    pub scans: Vec<DirScan>,
}

/// One scope's preview: the orphans of its lock against its disk with the
/// paths being removed left out, or nothing when the lock or a dir could not
/// be read.
pub open spec fn preview_one(obs: ScopeObservation, removing: Seq<Seq<char>>) -> Option<Seq<Seq<char>>> {
    match obs.keys {
        None => None,
        Some(keys) => match disk_names(obs.scans@, removing) {
            Err(_) => None,
            Ok(d) => Some(orphans(views(keys@), d)),
        },
    }
}

/// The keys a removal's prune would drop, per [`preview_prune_for_removal`].
pub open spec fn removal_preview(
    scope: ResourceScope,
    has_root: bool,
    global: ScopeObservation,
    project: ScopeObservation,
    removing: Seq<Seq<char>>,
) -> Option<Seq<Seq<char>>> {
    match scope {
        ResourceScope::GlobalOnly => preview_one(global, removing),
        ResourceScope::ProjectOnly => if has_root {
            preview_one(project, removing)
        } else {
            None
        },
        ResourceScope::Both => match preview_one(global, removing) {
            None => None,
            Some(g) => if !has_root {
                Some(g)
            } else {
                match preview_one(project, removing) {
                    None => None,
                    Some(p) => Some(g + p),
                }
            },
        },
    }
}

fn preview_scope(obs: &ScopeObservation, removing: &Vec<String>) -> (r: Option<Vec<String>>)
    ensures
        match (r, preview_one(*obs, vs(removing@))) {
            (Some(v), Some(s)) => views(v@) == s,
            (None, None) => true,
            _ => false,
        },
{
    let keys = match &obs.keys {
        None => {
            return None;
        },
        Some(k) => k,
    };
    match collect_disk_dir_names_except(&obs.scans, removing) {
        Err(_) => None,
        Ok(disk) => {
            let out = collect_orphans(keys, &disk);
            assert(vs(disk@) =~= views(disk@));
            Some(out)
        },
    }
}

/// What the post-delete lock prune WOULD drop, for a removal that has not run
/// yet. `removing` are the paths the delete will take: they are left out of
/// the scan, since the preview runs while they are still on disk. Anything
/// unprovable (an unreadable lock or dir, a project scope with no root) gives
/// `NotRun`: a preview that cannot see the whole picture promises nothing.
pub fn preview_prune_for_removal(
    scope: ResourceScope,
    project_root: Option<&str>,
    removing: &Vec<String>,
    global: &ScopeObservation,
    project: &ScopeObservation,
) -> (r: PruneStatus)
    ensures
        match removal_preview(scope, project_root is Some, *global, *project, vs(removing@)) {
            Some(keys) => (r matches PruneStatus::WouldPrune(k) && vs(k@) == keys),
            None => r is NotRun,
        },
{
    let keys = match scope {
        ResourceScope::GlobalOnly => preview_scope(global, removing),
        ResourceScope::ProjectOnly => match project_root {
            Some(_) => preview_scope(project, removing),
            None => None,
        },
        ResourceScope::Both => {
            let g = preview_scope(global, removing);
            match (g, project_root) {
                (Some(mut g), Some(_)) => match preview_scope(project, removing) {
                    Some(p) => {
                        append_all(&mut g, p);
                        Some(g)
                    },
                    None => None,
                },
                (g, None) => g,
                (None, _) => None,
            }
        },
    };
    match keys {
        Some(k) => {
            assert(vs(k@) =~= views(k@));
            PruneStatus::WouldPrune(k)
        },
        None => PruneStatus::NotRun,
    }
}

/// Keys all present on disk leave no orphans.
proof fn lemma_no_orphans(keys: Seq<Seq<char>>, disk: Seq<Seq<char>>)
    requires
        forall|i: int| 0 <= i < keys.len() ==> present_on_disk(#[trigger] keys[i], disk),
    ensures
        orphans(keys, disk) == Seq::<Seq<char>>::empty(),
    decreases keys.len(),
{
    if keys.len() > 0 {
        assert forall|i: int| 0 <= i < keys.drop_last().len() implies present_on_disk(
            #[trigger] keys.drop_last()[i],
            disk,
        ) by {
            assert(keys.drop_last()[i] == keys[i]);
        }
        lemma_no_orphans(keys.drop_last(), disk);
        assert(present_on_disk(keys[keys.len() - 1], disk));
    }
}

/// Pruning against the same disk twice drops nothing the second time: after
/// one prune every remaining entry is present on disk.
pub proof fn lemma_prune_idempotent<E>(
    before: LockTable<E>,
    after: LockTable<E>,
    disk: Seq<Seq<char>>,
    removed: Seq<Seq<char>>,
)
    requires
        before.wf(),
        pruned(before, after, disk, removed),
    ensures
        orphans(after.keys(), disk) == Seq::<Seq<char>>::empty(),
{
    assert forall|i: int| 0 <= i < after.keys().len() implies present_on_disk(#[trigger] after.keys()[i], disk) by {
        assert(after.has(after.keys()[i]));
    }
    lemma_no_orphans(after.keys(), disk);
}

/// A pruned table keeps exactly the entries present on disk and drops
/// exactly the orphans: every key is either kept (unchanged) or reported as
/// dropped, never both.
pub proof fn lemma_prune_partitions<E>(
    before: LockTable<E>,
    after: LockTable<E>,
    disk: Seq<Seq<char>>,
    removed: Seq<Seq<char>>,
    k: Seq<char>,
)
    requires
        before.wf(),
        pruned(before, after, disk, removed),
        before.has(k),
    ensures
        after.has(k) != removed.contains(k),
        after.has(k) ==> after.lookup(k) == before.lookup(k),
{
    lemma_orphans_contains(before.keys(), disk, k);
}

/// A preview predicts its commit: on the same disk, the keys a prune drops
/// from the scope's lock are exactly the orphans a preview lists for that
/// lock's keys.
pub proof fn lemma_preview_predicts_prune(
    scope: PruneScope,
    before: Locks,
    after: Locks,
    disk: Seq<Seq<char>>,
    removed: Seq<Seq<char>>,
)
    requires
        before.wf(),
        scope_pruned(scope, before, after, disk, removed),
    ensures
        removed == orphans(
            match scope {
                PruneScope::Global => before.global.keys(),
                PruneScope::Project => before.project.keys(),
            },
            disk,
        ),
{
}

/// A preview for both scopes is the global scope's preview followed by the
/// project scope's: with a root, every project orphan is listed after the
/// global ones, and either half that cannot be read makes the whole preview
/// unknown; without a root it is the global preview alone.
pub proof fn lemma_both_preview_is_global_then_project(
    global: ScopeObservation,
    project: ScopeObservation,
    removing: Seq<Seq<char>>,
)
    ensures
        removal_preview(ResourceScope::Both, true, global, project, removing) == match (
            removal_preview(ResourceScope::GlobalOnly, true, global, project, removing),
            removal_preview(ResourceScope::ProjectOnly, true, global, project, removing),
        ) {
            (Some(g), Some(p)) => Some(g + p),
            _ => None::<Seq<Seq<char>>>,
        },
        removal_preview(ResourceScope::Both, false, global, project, removing) == removal_preview(
            ResourceScope::GlobalOnly,
            false,
            global,
            project,
            removing,
        ),
        removal_preview(ResourceScope::ProjectOnly, false, global, project, removing) is None,
{
}

/// A prune drops exactly the locked keys whose sanitized folder name is
/// not on disk (its raw spelling having a folder does not keep it), keeps
/// every other entry unchanged, and reports the dropped keys.
pub proof fn lemma_prune_drops_exactly_the_orphans<E>(
    before: LockTable<E>,
    after: LockTable<E>,
    disk: Seq<Seq<char>>,
    removed: Seq<Seq<char>>,
)
    requires
        pruned(before, after, disk, removed),
    ensures
        forall|k: Seq<char>| #[trigger] removed.contains(k) <==> (before.has(k) && !disk.contains(sanitized(k))),
        forall|k: Seq<char>| #[trigger] after.has(k) <==> (before.has(k) && disk.contains(sanitized(k))),
        forall|k: Seq<char>| after.has(k) ==> #[trigger] after.lookup(k) == before.lookup(k),
{
    assert forall|k: Seq<char>| #[trigger] removed.contains(k) <==> (before.has(k) && !disk.contains(sanitized(k))) by {
        lemma_orphans_contains(before.keys(), disk, k);
    }
    assert forall|k: Seq<char>| after.has(k) implies #[trigger] after.lookup(k) == before.lookup(k) by {
        assert(after.has(k));
    }
}

/// A scope's preview, when its lock and disk could be read, lists exactly
/// the locked keys whose sanitized folder name is not on disk (the paths
/// being removed counting as gone).
pub proof fn lemma_preview_lists_exactly_the_orphans(obs: ScopeObservation, removing: Seq<Seq<char>>)
    ensures
        preview_one(obs, removing) matches Some(r) ==> (obs.keys matches Some(keys) && disk_names(obs.scans@, removing)
            matches Ok(d) && forall|k: Seq<char>| #[trigger] r.contains(k) <==> (views(keys@).contains(k)
            && !d.contains(sanitized(k)))),
        (obs.keys is None || disk_names(obs.scans@, removing) is Err) ==> preview_one(obs, removing) is None,
{
    match obs.keys {
        None => {},
        Some(keys) => match disk_names(obs.scans@, removing) {
            Err(_) => {},
            Ok(d) => {
                assert forall|k: Seq<char>| #[trigger] orphans(views(keys@), d).contains(k) <==> (views(
                    keys@,
                ).contains(k) && !d.contains(sanitized(k))) by {
                    lemma_orphans_contains(views(keys@), d, k);
                }
            },
        },
    }
}

} // verus!
