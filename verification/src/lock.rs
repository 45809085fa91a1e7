//! Lock-entry identity checks, the mutation-lock scope plan and the lock
//! re-stamp after a content rewrite.

use vstd::prelude::*;

use crate::models::{clone_opt, opt_view, GlobalLock, LocalLock, LocalSkillLockEntry, Locks, ResourceScope, SkillLockEntry};
use crate::remote::{remote_owner, remote_owner_from_url};
use crate::text::{
    chars_of, concat_chars, contains_char, count_char, count_of, find_pat, first_occ, first_pos,
    owned, str_eq, string_from, trim_ws, trim_ws_chars,
};

verus! {

/// Wire code for mutation-lock contention: nothing was written and the same
/// request succeeds once the other process finishes.
pub const MUTATION_LOCK_BUSY_CODE: &'static str = "SKILL_MUTATION_LOCK_BUSY";

/// Wire code for a lock entry that moved while an operation was fetching.
pub const SOURCE_CHANGED_DURING_FETCH_CODE: &'static str = "SKILL_SOURCE_CHANGED_DURING_FETCH";

/// Whether a trimmed source is the hostless `owner/repo` shorthand.
pub open spec fn is_shorthand(s: Seq<char>) -> bool {
    first_occ(s, "://"@) == s.len() && !s.contains(':') && count_char(s, '/') == 1
}

/// A remote identity two source spellings can be compared on: the
/// `owner/repo` shorthand means GitHub, anything else goes through
/// [`remote_owner`].
pub open spec fn comparable(source: Seq<char>) -> Option<Seq<char>> {
    let s = trim_ws(source);
    if is_shorthand(s) {
        remote_owner("https://github.com/"@ + s)
    } else {
        remote_owner(s)
    }
}

/// The remote identity of `source`, or `None` when it is not a spelling that
/// can be canonicalized.
fn comparable_remote(source: &str) -> (r: Option<String>)
    ensures
        opt_view(r) == comparable(source@),
{
    let raw = chars_of(source);
    let s = trim_ws_chars(&raw);
    let sep = chars_of("://");
    proof {
        reveal_strlit("://");
    }
    let hostless = find_pat(&s, &sep) == s.len() && !contains_char(&s, ':') && count_of(&s, '/')
        == 1;
    let trimmed = string_from(&s);
    if hostless {
        let prefix = chars_of("https://github.com/");
        let full = concat_chars(&prefix, &s);
        let url = string_from(&full);
        let r = remote_owner_from_url(url.as_str());
        proof {
            reveal_strlit("https://github.com/");
        }
        r
    } else {
        remote_owner_from_url(trimmed.as_str())
    }
}

/// One lock the interprocess mutation guard takes.
#[derive(Debug)]
pub enum MutationScope {
    Global,
    Project(String),
}

/// What a mutation guard for an operation must lock: the named operation and
/// the lock scopes, global first.
#[derive(Debug)]
pub struct MutationGuardPlan {
    pub op: String,
    pub scopes: Vec<MutationScope>,
}

/// The scopes the mutation guard for `scope` takes. A project scope with no
/// root locks nothing but the process.
pub open spec fn guard_scopes_spec(scope: ResourceScope, project_root: Option<Seq<char>>) -> Seq<
    Option<Seq<char>>,
> {
    let g: Seq<Option<Seq<char>>> = if scope == ResourceScope::GlobalOnly || scope
        == ResourceScope::Both {
        seq![None]
    } else {
        Seq::empty()
    };
    if (scope == ResourceScope::ProjectOnly || scope == ResourceScope::Both)
        && project_root is Some {
        g.push(project_root)
    } else {
        g
    }
}

/// The view of a mutation scope: `None` for the global lock, the project root
/// otherwise.
pub open spec fn scope_view(s: MutationScope) -> Option<Seq<char>> {
    match s {
        MutationScope::Global => None,
        MutationScope::Project(root) => Some(root@),
    }
}

/// Plan the interprocess skill mutation lock for `scope`, held across a whole
/// transaction: the global lock for `GlobalOnly`/`Both`, the project's lock for
/// `ProjectOnly`/`Both` when there is a root.
pub fn mutation_guard(op: &str, scope: ResourceScope, project_root: Option<&str>) -> (plan:
    MutationGuardPlan)
    ensures
        plan.op@ == op@,
        plan.scopes@.map_values(|s: MutationScope| scope_view(s)) == guard_scopes_spec(
            scope,
            match project_root {
                Some(r) => Some(r@),
                None => None,
            },
        ),
{
    let mut scopes: Vec<MutationScope> = Vec::new();
    if scope == ResourceScope::GlobalOnly || scope == ResourceScope::Both {
        scopes.push(MutationScope::Global);
    }
    if scope == ResourceScope::ProjectOnly || scope == ResourceScope::Both {
        if let Some(root) = project_root {
            scopes.push(MutationScope::Project(owned(root)));
        }
    }
    let ghost pr = match project_root {
        Some(r) => Some(r@),
        None => None,
    };
    assert(scopes@.map_values(|s: MutationScope| scope_view(s)) =~= guard_scopes_spec(scope, pr));
    MutationGuardPlan { op: owned(op), scopes }
}

/// A snapshot of one lock entry's identity, taken before a fetch and
/// re-verified immediately before mutating: a compare-and-set on the
/// coordinates, not on content.
#[derive(Debug)]
pub struct EntryIdentity {
    source: String,
    skill_path: Option<String>,
    ref_name: Option<String>,
}

/// The identity coordinates as plain values.
pub struct IdentityView {
    pub source: Seq<char>,
    pub skill_path: Option<Seq<char>>,
    pub ref_name: Option<Seq<char>>,
}

/// The identity a global entry yields.
pub open spec fn global_identity(e: SkillLockEntry) -> IdentityView {
    IdentityView {
        source: e.source_url@,
        skill_path: opt_view(e.skill_path),
        ref_name: opt_view(e.ref_name),
    }
}

/// The identity a project entry yields: `source_url`, falling back to `source`.
pub open spec fn project_identity(e: LocalSkillLockEntry) -> IdentityView {
    IdentityView {
        source: match e.source_url {
            Some(u) => u@,
            None => e.source@,
        },
        skill_path: opt_view(e.skill_path),
        ref_name: opt_view(e.ref_name),
    }
}

/// What `capture` sees for `name` at `scope`: the global entry, the project
/// entry when there is a root, never anything for `Both`.
pub open spec fn captured(name: Seq<char>, scope: ResourceScope, has_root: bool, locks: Locks) -> Option<
    IdentityView,
> {
    match scope {
        ResourceScope::GlobalOnly => match locks.global.lookup(name) {
            Some(e) => Some(global_identity(e)),
            None => None,
        },
        ResourceScope::ProjectOnly => if has_root {
            match locks.project.lookup(name) {
                Some(e) => Some(project_identity(e)),
                None => None,
            }
        } else {
            None
        },
        ResourceScope::Both => None,
    }
}

/// Whether a request claiming `source` + `skill_path` is about the entry
/// `id` describes.
pub open spec fn describes_spec(id: IdentityView, source: Seq<char>, skill_path: Seq<char>) -> bool {
    &&& (id.skill_path matches Some(recorded) ==> trim_ws(recorded) == trim_ws(skill_path))
    &&& match (comparable(id.source), comparable(source)) {
        (Some(recorded), Some(claimed)) => recorded == claimed,
        _ => true,
    }
}

/// `'{name}' is no longer in the lock; ...`
pub open spec fn gone_message(name: Seq<char>) -> Seq<char> {
    "'"@ + name
        + "' is no longer in the lock; another aghub process changed it while this operation was fetching, so nothing was written"@
}

/// `'{name}' now points at a different source, ...`
pub open spec fn moved_message(name: Seq<char>) -> Seq<char> {
    "'"@ + name
        + "' now points at a different source, skill path or ref than the one this operation started from; another aghub process changed it in the meantime, so nothing was written. Re-run to use the current coordinates."@
}

fn opt_eq(a: &Option<String>, b: &Option<String>) -> (r: bool)
    ensures
        r == (opt_view(*a) == opt_view(*b)),
{
    match (a, b) {
        (Some(x), Some(y)) => str_eq(x.as_str(), y.as_str()),
        (None, None) => true,
        _ => false,
    }
}

/// `prefix + name + suffix` as a `String`.
pub fn quoted_message(prefix: &str, name: &str, suffix: &str) -> (r: String)
    ensures
        r@ == prefix@ + name@ + suffix@,
{
    let a = chars_of(prefix);
    let b = chars_of(name);
    let c = chars_of(suffix);
    let ab = concat_chars(&a, &b);
    let abc = concat_chars(&ab, &c);
    string_from(&abc)
}

impl EntryIdentity {
    pub closed spec fn view(&self) -> IdentityView {
        IdentityView {
            source: self.source@,
            skill_path: opt_view(self.skill_path),
            ref_name: opt_view(self.ref_name),
        }
    }

    /// The identity of a GLOBAL entry the caller already holds.
    pub fn of_global_entry(entry: &SkillLockEntry) -> (id: Self)
        ensures
            id.view() == global_identity(*entry),
    {
        EntryIdentity {
            source: entry.source_url.clone(),
            skill_path: clone_opt(&entry.skill_path),
            ref_name: clone_opt(&entry.ref_name),
        }
    }

    /// The identity of a PROJECT entry: `source_url`, falling back to `source`.
    pub fn of_project_entry(entry: &LocalSkillLockEntry) -> (id: Self)
        ensures
            id.view() == project_identity(*entry),
    {
        EntryIdentity {
            source: match &entry.source_url {
                Some(u) => u.clone(),
                None => entry.source.clone(),
            },
            skill_path: clone_opt(&entry.skill_path),
            ref_name: clone_opt(&entry.ref_name),
        }
    }

    /// Snapshot the identity of `name` as the locks hold it now. `None` when
    /// there is no such entry (or the scope is `Both`).
    pub fn capture(name: &str, scope: ResourceScope, project_root: Option<&str>, locks: &Locks) -> (r:
        Option<Self>)
        requires
            locks.wf(),
        ensures
            match (r, captured(name@, scope, project_root is Some, *locks)) {
                (Some(id), Some(v)) => id.view() == v,
                (None, None) => true,
                _ => false,
            },
    {
        match scope {
            ResourceScope::GlobalOnly => match locks.global.get(name) {
                Some(e) => Some(Self::of_global_entry(e)),
                None => None,
            },
            ResourceScope::ProjectOnly => {
                if project_root.is_none() {
                    return None;
                }
                match locks.project.get(name) {
                    Some(e) => Some(Self::of_project_entry(e)),
                    None => None,
                }
            },
            ResourceScope::Both => None,
        }
    }

    /// A hand-built identity, for callers that never compare it.
    pub fn unchecked_for_tests(source: &str, skill_path: Option<String>, ref_name: Option<
        String,
    >) -> (id: Self)
        ensures
            id.view() == (IdentityView {
                source: source@,
                skill_path: opt_view(skill_path),
                ref_name: opt_view(ref_name),
            }),
    {
        EntryIdentity { source: owned(source), skill_path, ref_name }
    }

    /// Whether this identity equals `other` on all three coordinates.
    pub fn same_as(&self, other: &Self) -> (r: bool)
        ensures
            r == (self.view() == other.view()),
    {
        str_eq(self.source.as_str(), other.source.as_str()) && opt_eq(
            &self.skill_path,
            &other.skill_path,
        ) && opt_eq(&self.ref_name, &other.ref_name)
    }

    /// Whether a request claiming `source` + `skill_path` is talking about
    /// THIS entry. Refuses only on a provable mismatch: a recorded skill path
    /// that differs (trimmed), or two comparable remotes that differ.
    pub fn describes(&self, source: &str, skill_path: &str) -> (r: bool)
        ensures
            r == describes_spec(self.view(), source@, skill_path@),
    {
        if let Some(recorded) = &self.skill_path {
            let a = chars_of(recorded.as_str());
            let b = chars_of(skill_path);
            let ta = trim_ws_chars(&a);
            let tb = trim_ws_chars(&b);
            if !crate::text::chars_eq(&ta, &tb) {
                return false;
            }
        }
        match (comparable_remote(self.source.as_str()), comparable_remote(source)) {
            (Some(recorded), Some(claimed)) => str_eq(recorded.as_str(), claimed.as_str()),
            _ => true,
        }
    }

    /// Refuse unless the entry is still exactly the one this snapshot
    /// describes (source, skill path and ref all bind).
    pub fn ensure_unchanged(
        &self,
        name: &str,
        scope: ResourceScope,
        project_root: Option<&str>,
        locks: &Locks,
    ) -> (r: Result<(), String>)
        requires
            locks.wf(),
        ensures
            r is Ok <==> captured(name@, scope, project_root is Some, *locks) == Some(self.view()),
            r matches Err(m) ==> (captured(name@, scope, project_root is Some, *locks) is None
                && m@ == gone_message(name@)) || (captured(
                name@,
                scope,
                project_root is Some,
                *locks,
            ) is Some && m@ == moved_message(name@)),
    {
        let current = Self::capture(name, scope, project_root, locks);
        match current {
            None => {
                let m = quoted_message(
                    "'",
                    name,
                    "' is no longer in the lock; another aghub process changed it while this operation was fetching, so nothing was written",
                );
                Err(m)
            },
            Some(c) => {
                if c.same_as(self) {
                    Ok(())
                } else {
                    Err(
                        quoted_message(
                            "'",
                            name,
                            "' now points at a different source, skill path or ref than the one this operation started from; another aghub process changed it in the meantime, so nothing was written. Re-run to use the current coordinates.",
                        ),
                    )
                }
            },
        }
    }
}

#[verifier::external_type_specification]
#[verifier::external_body]
pub struct ExSystemTime(std::time::SystemTime);

/// `SystemTime::now()`. Nothing is stated of it: it is the clock.
#[verifier::external_body]
fn clock_now() -> (r: std::time::SystemTime) {
    std::time::SystemTime::now()
}

/// `t.duration_since(UNIX_EPOCH)`, with its error (a `t` before 1970) as
/// `None`. Nothing is stated of the duration: it depends on the clock.
#[verifier::external_body]
fn since_unix_epoch(t: &std::time::SystemTime) -> (r: Option<std::time::Duration>) {
    t.duration_since(std::time::UNIX_EPOCH).ok()
}

/// `d.as_secs()`, the whole seconds of `d`. Verus sees nothing inside a
/// `Duration`, so nothing is stated of the number.
#[verifier::external_body]
fn duration_secs(d: &std::time::Duration) -> (r: u64) {
    d.as_secs()
}

/// `d.subsec_nanos()`: the fractional part of `d` in nanoseconds, which std
/// documents as less than one second.
#[verifier::external_body]
fn duration_subsec_nanos(d: &std::time::Duration) -> (r: u32)
    ensures
        r < 1_000_000_000,
{
    d.subsec_nanos()
}

/// What `chrono::DateTime::from_timestamp(secs, nanos)` followed by
/// `to_rfc3339()` gives.
pub uninterp spec fn rfc3339_at(secs: int, nanos: int) -> Option<Seq<char>>;

/// `DateTime::<Utc>::from_timestamp(secs, nanos).map(|t| t.to_rfc3339())`.
/// `from_timestamp` is `None` only for a day count outside `i32` or an
/// invalid time of day, so a time between 1970 and the year 5000 with
/// nanoseconds below a second always gives a text; `to_rfc3339` writes into
/// a `String`, which cannot fail. The two calls share one wrapper because
/// the `DateTime` between them is a value Verus cannot look into.
#[verifier::external_body]
fn rfc3339_of(secs: i64, nanos: u32) -> (r: Option<String>)
    ensures
        match r {
            Some(t) => rfc3339_at(secs as int, nanos as int) == Some(t@),
            None => rfc3339_at(secs as int, nanos as int) is None,
        },
        0 <= secs < 100_000_000_000 && nanos < 1_000_000_000 ==> r is Some,
{
    chrono::DateTime::from_timestamp(secs, nanos).map(|t| t.to_rfc3339())
}

/// Whether `t` is the RFC 3339 text of some time.
pub open spec fn is_timestamp(t: Seq<char>) -> bool {
    exists|secs: int, nanos: int| #[trigger] rfc3339_at(secs, nanos) == Some(t)
}

/// The current UTC time in RFC 3339; `None` when the clock reads before
/// 1970 (or past any date a timestamp can name).
fn now_rfc3339() -> (r: Option<String>)
    ensures
        r matches Some(t) ==> is_timestamp(t@),
{
    let now = clock_now();
    match since_unix_epoch(&now) {
        None => None,
        Some(d) => {
            let secs = duration_secs(&d);
            let nanos = duration_subsec_nanos(&d);
            if secs <= 9_223_372_036_854_775_807u64 {
                rfc3339_of(secs as i64, nanos)
            } else {
                None
            }
        },
    }
}

/// A global entry after a content rewrite: `hash` recorded as both the folder
/// and the content hash and `ref_commit` as the recorded tip (`None` clears
/// it). The update time is the clock's.
pub open spec fn restamped_global(e: SkillLockEntry, hash: Seq<char>, ref_commit: Option<
    Seq<char>,
>) -> bool {
    &&& e.skill_folder_hash@ == hash
    &&& opt_view(e.content_hash) == Some(hash)
    &&& opt_view(e.ref_commit) == ref_commit
}

/// Everything but the hash, update time and tip stays as it was.
pub open spec fn same_global_provenance(a: SkillLockEntry, b: SkillLockEntry) -> bool {
    &&& a.source == b.source
    &&& a.source_type == b.source_type
    &&& a.source_url == b.source_url
    &&& a.ref_name == b.ref_name
    &&& a.skill_path == b.skill_path
    &&& a.installed_at == b.installed_at
    &&& a.plugin_name == b.plugin_name
}

/// A project entry after a content rewrite: `hash` as the computed hash and
/// `ref_commit` as the recorded tip.
pub open spec fn restamped_project(
    e: LocalSkillLockEntry,
    old: LocalSkillLockEntry,
    hash: Seq<char>,
    ref_commit: Option<Seq<char>>,
) -> bool {
    &&& e.computed_hash@ == hash
    &&& opt_view(e.ref_commit) == ref_commit
    &&& e.source_url == old.source_url
    &&& e.source == old.source
    &&& e.ref_name == old.ref_name
    &&& e.source_type == old.source_type
    &&& e.skill_path == old.skill_path
}

fn opt_owned(o: Option<&str>) -> (r: Option<String>)
    ensures
        opt_view(r) == match o {
            Some(s) => Some(s@),
            None => None,
        },
{
    match o {
        Some(s) => Some(owned(s)),
        None => None,
    }
}

/// Re-stamp an installed skill's lock hash after a content rewrite.
/// `ref_commit` is authoritative: `Some(oid)` records the tip and `None`
/// clears any recorded one. Only the entry `name` of the scope's lock changes.
/// A global entry's update time becomes the clock's; when the clock cannot
/// be read (it reads before 1970) the recorded time is kept.
pub fn update_lock_hash(
    name: &str,
    scope: ResourceScope,
    project_root: Option<&str>,
    hash: &str,
    ref_commit: Option<&str>,
    locks: &mut Locks,
) -> (r: Result<(), String>)
    requires
        old(locks).wf(),
    ensures
        final(locks).wf(),
        r is Ok <==> match scope {
            ResourceScope::GlobalOnly => old(locks).global.has(name@),
            ResourceScope::ProjectOnly => project_root is Some && old(locks).project.has(name@),
            ResourceScope::Both => false,
        },
        r matches Err(m) ==> m@ == match scope {
            ResourceScope::GlobalOnly => "skill is not in global lock"@,
            ResourceScope::ProjectOnly => if project_root is None {
                "project_root is required when scope is project"@
            } else {
                "skill is not in project lock"@
            },
            ResourceScope::Both => "update requires global or project scope, not both"@,
        },
        r is Err ==> *final(locks) == *old(locks),
        r is Ok && scope == ResourceScope::GlobalOnly ==> {
            &&& final(locks).project == old(locks).project
            &&& forall|k: Seq<char>|
                k != name@ ==> #[trigger] final(locks).global.lookup(k) == old(locks).global.lookup(k)
            &&& final(locks).global.lookup(name@) matches Some(e) && restamped_global(
                    e,
                    hash@,
                    match ref_commit {
                        Some(c) => Some(c@),
                        None => None,
                    },
                ) && same_global_provenance(e, old(locks).global.lookup(name@)->0)
            &&& final(locks).global.lookup(name@) matches Some(e) && (is_timestamp(e.updated_at@) || e.updated_at
                == old(locks).global.lookup(name@)->0.updated_at)
        },
        r is Ok && scope == ResourceScope::ProjectOnly ==> {
            &&& final(locks).global == old(locks).global
            &&& forall|k: Seq<char>|
                k != name@ ==> #[trigger] final(locks).project.lookup(k) == old(
                    locks,
                ).project.lookup(k)
            &&& final(locks).project.lookup(name@) matches Some(e) && restamped_project(
                e,
                old(locks).project.lookup(name@)->0,
                hash@,
                match ref_commit {
                    Some(c) => Some(c@),
                    None => None,
                },
            )
        },
{
    match scope {
        ResourceScope::GlobalOnly => {
            let updated = match locks.global.get(name) {
                None => {
                    return Err(owned("skill is not in global lock"));
                },
                Some(entry) => {
                    let mut e = entry.duplicate();
                    e.skill_folder_hash = owned(hash);
                    e.content_hash = Some(owned(hash));
                    match now_rfc3339() {
                        Some(now) => {
                            e.updated_at = now;
                        },
                        None => {},
                    }
                    e.ref_commit = opt_owned(ref_commit);
                    e
                },
            };
            let _ = locks.global.insert(owned(name), updated);
            Ok(())
        },
        ResourceScope::ProjectOnly => {
            if project_root.is_none() {
                return Err(owned("project_root is required when scope is project"));
            }
            let updated = match locks.project.get(name) {
                None => {
                    return Err(owned("skill is not in project lock"));
                },
                Some(entry) => {
                    let mut e = entry.duplicate();
                    e.computed_hash = owned(hash);
                    e.ref_commit = opt_owned(ref_commit);
                    e
                },
            };
            let _ = locks.project.insert(owned(name), updated);
            Ok(())
        },
        ResourceScope::Both => Err(owned("update requires global or project scope, not both")),
    }
}

} // verus!
