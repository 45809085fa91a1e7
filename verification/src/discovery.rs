//! Loading the skills found in agents' skills directories.
//!
//! Walking a directory is the caller's: each walk is handed in as a
//! [`DirWalk`]. What is decided here is which walk fails the load, which
//! skill wins a name found in several directories, and the order skills are
//! listed in (by name).

use vstd::prelude::*;

use crate::models::Skill;
use crate::text::{chars_of, owned};

verus! {

broadcast use vstd::seq_lib::group_to_multiset_ensures;

/// What walking one skills directory found.
#[derive(Debug)]
pub struct DirWalk {
    /// Every skill the walk could read, in walk order.
    pub skills: Vec<Skill>,
    /// The first error met (an unreadable directory or entry). A directory
    /// that does not exist is no error: it holds nothing.
    pub failure: Option<String>,
    /// Entries may be missing from `skills` (the directory, or one of its
    /// entries, could not be listed).
    pub unlisted: bool,
}

/// The kind of an I/O error, as far as the walk tells kinds apart.
#[derive(Debug, Clone, Copy, PartialEq, Eq, Structural)]
pub enum IoKind {
    NotFound,
    NotADirectory,
    IsADirectory,
    InvalidData,
    Other,
}

/// One step of walking a skills directory, in walk order. A group dir (a
/// dir with no skill of its own, see [`opens_group`]) is walked in turn, its
/// steps following the step that opened it.
#[derive(Debug)]
pub enum WalkEvent {
    /// Listing a directory failed; `message` names the directory.
    ListFailed { kind: IoKind, message: String },
    /// The listing failed on one entry; `message` names the directory.
    EntryFailed { message: String },
    /// Telling what an entry is failed; `message` names the entry.
    StatFailed { kind: IoKind, message: String },
    /// A file, or a link to nothing: no skill.
    NotADir,
    /// A skill dir, and the skill read from it.
    Found(Skill),
    /// A dir whose `SKILL.md` gave no skill: an I/O error of kind `io`
    /// (`None` for any other failure); `message` names the path.
    ParseFailed { io: Option<IoKind>, message: String },
}

/// Whether a dir whose `SKILL.md` failed this way is a group dir, walked
/// in turn: any failure but an I/O error that is neither invalid data nor a
/// directory in the way (those bytes were read: the file is malformed).
/// `kind` is the I/O error's kind, `None` for any other failure.
pub open spec fn opens_group_spec(kind: Option<IoKind>) -> bool {
    match kind {
        Some(k) => k == IoKind::InvalidData || k == IoKind::IsADirectory,
        None => true,
    }
}

/// See [`opens_group_spec`].
pub fn opens_group(kind: Option<IoKind>) -> (r: bool)
    ensures
        r == opens_group_spec(kind),
{
    match kind {
        Some(IoKind::InvalidData) | Some(IoKind::IsADirectory) | None => true,
        Some(_) => false,
    }
}

/// The failure a step records, if any. A directory that is not there holds
/// nothing, and neither does an entry that vanished.
pub open spec fn noted(e: WalkEvent) -> Option<Seq<char>> {
    match e {
        WalkEvent::ListFailed { kind, message } => if kind == IoKind::NotFound {
            None
        } else {
            Some(message@)
        },
        WalkEvent::EntryFailed { message } => Some(message@),
        WalkEvent::StatFailed { kind, message } => if kind == IoKind::NotFound {
            None
        } else {
            Some(message@)
        },
        WalkEvent::NotADir => None,
        WalkEvent::Found(_) => None,
        WalkEvent::ParseFailed { io, message } => if opens_group_spec(io) {
            None
        } else {
            Some(message@)
        },
    }
}

/// Whether a step means entries may be missing from the list: a listing
/// that failed for any reason but the path not being a directory, an entry
/// the listing failed on, or one that could not be classified. A skill that
/// could not be read was still listed.
pub open spec fn unlists(e: WalkEvent) -> bool {
    match e {
        WalkEvent::ListFailed { kind, .. } => kind != IoKind::NotFound && kind != IoKind::NotADirectory,
        WalkEvent::EntryFailed { .. } => true,
        WalkEvent::StatFailed { kind, .. } => kind != IoKind::NotFound,
        _ => false,
    }
}

/// The skills the steps found, in order.
pub open spec fn found_skills(es: Seq<WalkEvent>) -> Seq<Skill>
    decreases es.len(),
{
    if es.len() == 0 {
        Seq::empty()
    } else {
        let rest = found_skills(es.drop_last());
        match es.last() {
            WalkEvent::Found(k) => rest.push(k),
            _ => rest,
        }
    }
}

/// The first failure the steps record.
pub open spec fn first_noted(es: Seq<WalkEvent>) -> Option<Seq<char>>
    decreases es.len(),
{
    if es.len() == 0 {
        None
    } else {
        match first_noted(es.drop_last()) {
            Some(m) => Some(m),
            None => noted(es.last()),
        }
    }
}

/// Fold a walk's steps into what it found: every skill in walk order, the
/// FIRST failure (the walk goes on past a failure, so one unreadable sibling
/// does not hide the rest), and whether entries may be missing.
pub fn collect_skills(events: Vec<WalkEvent>) -> (w: DirWalk)
    ensures
        w.skills@ == found_skills(events@),
        match first_noted(events@) {
            None => w.failure is None,
            Some(m) => w.failure matches Some(f) && f@ == m,
        },
        w.unlisted == exists|i: int| 0 <= i < events@.len() && unlists(#[trigger] events@[i]),
{
    let ghost all = events@;
    let n: usize = events.len();
    assert(all.len() == n);
    let mut rest = events;
    let mut skills: Vec<Skill> = Vec::new();
    let mut failure: Option<String> = None;
    let mut unlisted = false;
    let mut k: usize = 0;
    assert(all.subrange(0, all.len() as int) =~= all);
    assert(all.take(0) =~= Seq::<WalkEvent>::empty());
    while rest.len() > 0
        invariant
            k + rest@.len() == all.len(),
            all.len() <= usize::MAX,
            rest@ == all.subrange(k as int, all.len() as int),
            skills@ == found_skills(all.take(k as int)),
            match first_noted(all.take(k as int)) {
                None => failure is None,
                Some(m) => failure matches Some(f) && f@ == m,
            },
            unlisted == exists|i: int| 0 <= i < k && unlists(#[trigger] all[i]),
        decreases rest.len(),
    {
        let e = rest.remove(0);
        assert(e == all[k as int]);
        assert(all.take(k + 1).drop_last() =~= all.take(k as int));
        let ghost was = failure;
        let ghost was_unlisted = unlisted;
        match e {
            WalkEvent::ListFailed { kind, message } => {
                if kind != IoKind::NotFound {
                    if kind != IoKind::NotADirectory {
                        unlisted = true;
                    }
                    if failure.is_none() {
                        failure = Some(message);
                    }
                }
            },
            WalkEvent::EntryFailed { message } => {
                unlisted = true;
                if failure.is_none() {
                    failure = Some(message);
                }
            },
            WalkEvent::StatFailed { kind, message } => {
                if kind != IoKind::NotFound {
                    unlisted = true;
                    if failure.is_none() {
                        failure = Some(message);
                    }
                }
            },
            WalkEvent::NotADir => {},
            WalkEvent::Found(skill) => {
                skills.push(skill);
            },
            WalkEvent::ParseFailed { io, message } => {
                if !opens_group(io) && failure.is_none() {
                    failure = Some(message);
                }
            },
        }
        proof {
            assert(unlisted == (was_unlisted || unlists(all[k as int])));
            if unlisted {
                if !was_unlisted {
                    assert(unlists(all[k as int]));
                }
            } else {
                assert forall|i: int| 0 <= i < k + 1 implies !unlists(#[trigger] all[i]) by {
                    if i < k {
                    }
                }
            }
        }
        k = k + 1;
    }
    assert(all.take(all.len() as int) =~= all);
    DirWalk { skills, failure, unlisted }
}

/// Strict lexicographic order of names, character by character (for UTF-8
/// strings the same order as comparing their bytes).
pub open spec fn lex_lt(a: Seq<char>, b: Seq<char>) -> bool
    decreases a.len(),
{
    if a.len() == 0 {
        b.len() > 0
    } else if b.len() == 0 {
        false
    } else if a[0] != b[0] {
        a[0] < b[0]
    } else {
        lex_lt(a.drop_first(), b.drop_first())
    }
}

pub proof fn lemma_lex_trans(a: Seq<char>, b: Seq<char>, c: Seq<char>)
    requires
        lex_lt(a, b),
        lex_lt(b, c),
    ensures
        lex_lt(a, c),
    decreases a.len(),
{
    if a.len() > 0 && b.len() > 0 && c.len() > 0 && a[0] == b[0] && b[0] == c[0] {
        lemma_lex_trans(a.drop_first(), b.drop_first(), c.drop_first());
    }
}

pub proof fn lemma_lex_irrefl(a: Seq<char>)
    ensures
        !lex_lt(a, a),
    decreases a.len(),
{
    if a.len() > 0 {
        lemma_lex_irrefl(a.drop_first());
    }
}

/// No skill is listed before one whose name is smaller.
pub open spec fn sorted_by_name(s: Seq<Skill>) -> bool {
    forall|i: int, j: int| 0 <= i < j < s.len() ==> !lex_lt(#[trigger] s[j].name@, #[trigger] s[i].name@)
}

/// Whether `a` sorts strictly before `b`.
pub fn name_lt(a: &str, b: &str) -> (r: bool)
    ensures
        r == lex_lt(a@, b@),
{
    let x = chars_of(a);
    let y = chars_of(b);
    let mut i: usize = 0;
    assert(x@.skip(0) =~= x@);
    assert(y@.skip(0) =~= y@);
    while i < x.len() && i < y.len()
        invariant
            i <= x.len(),
            i <= y.len(),
            x@ == a@,
            y@ == b@,
            x@.subrange(0, i as int) == y@.subrange(0, i as int),
            lex_lt(x@, y@) == lex_lt(x@.skip(i as int), y@.skip(i as int)),
        decreases x.len() - i,
    {
        assert(x@.skip(i as int).len() > 0 && y@.skip(i as int).len() > 0);
        assert(x@.skip(i as int)[0] == x@[i as int]);
        assert(y@.skip(i as int)[0] == y@[i as int]);
        if x[i] != y[i] {
            return x[i] < y[i];
        }
        assert(x@.skip(i as int).drop_first() =~= x@.skip(i + 1));
        assert(y@.skip(i as int).drop_first() =~= y@.skip(i + 1));
        assert(x@.subrange(0, i + 1) =~= x@.subrange(0, i as int).push(x@[i as int]));
        assert(y@.subrange(0, i + 1) =~= y@.subrange(0, i as int).push(y@[i as int]));
        i = i + 1;
    }
    assert(i == x.len() ==> x@.skip(i as int).len() == 0);
    assert(i == y.len() ==> y@.skip(i as int).len() == 0);
    i == x.len() && i < y.len()
}

/// Whether a skill is named `n`.
pub open spec fn name_is(n: Seq<char>) -> spec_fn(Skill) -> bool {
    |k: Skill| k.name@ == n
}

/// The skills of `s` named `n`, in order.
pub open spec fn named(s: Seq<Skill>, n: Seq<char>) -> Seq<Skill> {
    s.filter(name_is(n))
}

proof fn lemma_named_insert(before: Seq<Skill>, p: int, x: Skill, n: Seq<char>)
    requires
        0 <= p <= before.len(),
        forall|k: int| p <= k < before.len() ==> #[trigger] before[k].name@ != x.name@,
    ensures
        named(before.insert(p, x), n) == if x.name@ == n {
            named(before, n).push(x)
        } else {
            named(before, n)
        },
{
    let f = name_is(n);
    let a = before.take(p);
    let b = before.skip(p);
    assert(before =~= a + b);
    assert(before.insert(p, x) =~= a.push(x) + b);
    Seq::filter_distributes_over_add(a, b, f);
    Seq::filter_distributes_over_add(a.push(x), b, f);
    a.lemma_filter_push(x, f);
    if x.name@ == n {
        assert(b.all(|y: Skill| !f(y))) by {
            assert forall|i: int| 0 <= i < b.len() implies !f(#[trigger] b[i]) by {
                assert(b[i] == before[p + i]);
            }
        }
        b.lemma_all_neg_filter_empty(f);
        assert(b.filter(f) =~= Seq::<Skill>::empty());
        assert(a.filter(f).push(x) + b.filter(f) =~= a.filter(f).push(x));
        assert(a.filter(f) + b.filter(f) =~= a.filter(f));
    }
}

/// Sort by name, stable: skills of equal names keep their relative order.
pub fn sort_by_name(v: Vec<Skill>) -> (out: Vec<Skill>)
    ensures
        sorted_by_name(out@),
        out@.to_multiset() == v@.to_multiset(),
        forall|n: Seq<char>| #[trigger] named(out@, n) == named(v@, n),
{
    let mut out: Vec<Skill> = Vec::new();
    let mut rest = v;
    while rest.len() > 0
        invariant
            sorted_by_name(out@),
            out@.to_multiset().add(rest@.to_multiset()) == v@.to_multiset(),
            forall|n: Seq<char>| #[trigger] named(out@, n) + named(rest@, n) == named(v@, n),
        decreases rest.len(),
    {
        let ghost rest0 = rest@;
        let ghost out0 = out@;
        let x = rest.remove(0);
        proof {
            assert(rest0 =~= seq![x] + rest@);
            vstd::seq_lib::lemma_multiset_commutative(seq![x], rest@);
            assert(seq![x] =~= Seq::<Skill>::empty().push(x));
        }
        let mut p: usize = 0;
        while p < out.len() && !name_lt(x.name.as_str(), out[p].name.as_str())
            invariant
                p <= out.len(),
                forall|k: int| 0 <= k < p ==> !lex_lt(x.name@, #[trigger] out@[k].name@),
            decreases out.len() - p,
        {
            p = p + 1;
        }
        let ghost before = out@;
        let ghost xv = x;
        out.insert(p, x);
        proof {
            assert(out@ == before.insert(p as int, xv));
            assert forall|k: int| p <= k < before.len() implies #[trigger] before[k].name@ != xv.name@ by {
                assert(lex_lt(xv.name@, before[p as int].name@));
                if before[k].name@ == xv.name@ {
                    if k == p {
                        lemma_lex_irrefl(xv.name@);
                    } else {
                        assert(!lex_lt(before[k].name@, before[p as int].name@));
                    }
                }
            }
            assert forall|n: Seq<char>| #[trigger] named(out@, n) + named(rest@, n) == named(v@, n) by {
                lemma_named_insert(before, p as int, xv, n);
                rest@.lemma_filter_prepend(xv, name_is(n));
                assert(seq![xv] + rest@ == rest0);
                assert(named(before, n) + named(rest0, n) == named(v@, n));
                if xv.name@ == n {
                    assert(named(before, n).push(xv) + named(rest@, n) =~= named(before, n) + (seq![xv] + named(
                        rest@,
                        n,
                    )));
                } else {
                    assert(Seq::<Skill>::empty() + named(rest@, n) =~= named(rest@, n));
                }
            }
            assert forall|i: int, j: int| 0 <= i < j < out@.len() implies !lex_lt(
                #[trigger] out@[j].name@,
                #[trigger] out@[i].name@,
            ) by {
                if j < p {
                    assert(out@[i] == before[i] && out@[j] == before[j]);
                } else if j == p {
                    assert(out@[i] == before[i]);
                } else if i == p {
                    assert(out@[j] == before[j - 1]);
                    assert(p < before.len());
                    assert(lex_lt(x.name@, before[p as int].name@));
                    if lex_lt(before[j - 1].name@, x.name@) {
                        lemma_lex_trans(before[j - 1].name@, x.name@, before[p as int].name@);
                        if j - 1 > p {
                            assert(!lex_lt(before[j - 1].name@, before[p as int].name@));
                        } else {
                            lemma_lex_irrefl(before[p as int].name@);
                        }
                    }
                } else if i < p {
                    assert(out@[i] == before[i] && out@[j] == before[j - 1]);
                } else {
                    assert(out@[i] == before[i - 1] && out@[j] == before[j - 1]);
                }
            }
        }
    }
    assert(rest@ =~= Seq::<Skill>::empty());
    assert forall|n: Seq<char>| #[trigger] named(out@, n) == named(v@, n) by {
        assert(named(rest@, n) =~= Seq::<Skill>::empty());
        assert(named(out@, n) + named(rest@, n) =~= named(out@, n));
    }
    out
}

/// The skills of a walk, by name; or its failure.
pub fn load_skills_from_dir(walk: DirWalk) -> (r: Result<Vec<Skill>, String>)
    ensures
        match walk.failure {
            Some(e) => r == Err::<Vec<Skill>, String>(e),
            None => r matches Ok(v) && sorted_by_name(v@) && v@.to_multiset() == walk.skills@.to_multiset() && (
            forall|n: Seq<char>| #[trigger] named(v@, n) == named(walk.skills@, n)),
        },
{
    let sorted = sort_by_name(walk.skills);
    match walk.failure {
        Some(e) => Err(e),
        None => Ok(sorted),
    }
}

/// The skills a walk could read, by name, with whether some may be missing.
pub fn load_skills_from_dir_partial(walk: DirWalk) -> (r: (Vec<Skill>, bool))
    ensures
        sorted_by_name(r.0@),
        r.0@.to_multiset() == walk.skills@.to_multiset(),
        forall|n: Seq<char>| #[trigger] named(r.0@, n) == named(walk.skills@, n),
        r.1 == walk.unlisted,
{
    let unlisted = walk.unlisted;
    (sort_by_name(walk.skills), unlisted)
}

pub open spec fn skill_names(s: Seq<Skill>) -> Seq<Seq<char>> {
    s.map_values(|k: Skill| k.name@)
}

/// `s` with every skill whose name an earlier one already has dropped.
pub open spec fn first_by_name(s: Seq<Skill>) -> Seq<Skill>
    decreases s.len(),
{
    if s.len() == 0 {
        Seq::empty()
    } else {
        let rest = first_by_name(s.drop_last());
        if skill_names(rest).contains(s.last().name@) {
            rest
        } else {
            rest.push(s.last())
        }
    }
}

/// The skills of every walk, in order.
pub open spec fn all_walked(walks: Seq<DirWalk>) -> Seq<Skill>
    decreases walks.len(),
{
    if walks.len() == 0 {
        Seq::empty()
    } else {
        all_walked(walks.drop_last()) + walks.last().skills@
    }
}

/// The first failure among the walks.
pub open spec fn first_failure(walks: Seq<DirWalk>) -> Option<String>
    decreases walks.len(),
{
    if walks.len() == 0 {
        None
    } else {
        match first_failure(walks.drop_last()) {
            Some(e) => Some(e),
            None => walks.last().failure,
        }
    }
}

fn has_name(v: &Vec<Skill>, name: &str) -> (r: bool)
    ensures
        r == skill_names(v@).contains(name@),
{
    let mut i: usize = 0;
    while i < v.len()
        invariant
            i <= v.len(),
            forall|j: int| 0 <= j < i ==> #[trigger] skill_names(v@)[j] != name@,
        decreases v.len() - i,
    {
        if crate::text::str_eq(v[i].name.as_str(), name) {
            assert(skill_names(v@)[i as int] == name@);
            return true;
        }
        i = i + 1;
    }
    false
}

/// Load the skills of several dirs: the first walk that failed fails the
/// load; otherwise a name found in several dirs keeps its first skill, and
/// the result is sorted by name.
pub fn load_skills_from_dirs(walks: Vec<DirWalk>) -> (r: Result<Vec<Skill>, String>)
    ensures
        match first_failure(walks@) {
            Some(e) => r == Err::<Vec<Skill>, String>(e),
            None => r matches Ok(v) && sorted_by_name(v@) && v@.to_multiset() == first_by_name(
                all_walked(walks@),
            ).to_multiset(),
        },
{
    let ghost w = walks@;
    let mut all: Vec<Skill> = Vec::new();
    let mut rest = walks;
    let ghost mut done: Seq<DirWalk> = Seq::empty();
    assert(done + rest@ =~= w);
    assert(all@ =~= first_by_name(all_walked(done)));
    while rest.len() > 0
        invariant
            done + rest@ == w,
            w == walks@,
            first_failure(done) is None,
            all@ == first_by_name(all_walked(done)),
        decreases rest.len(),
    {
        let ghost rest0 = rest@;
        let walk = rest.remove(0);
        proof {
            assert(rest0 =~= seq![walk] + rest@);
        }
        let ghost done1 = done.push(walk);
        proof {
            assert(done1.drop_last() =~= done);
            assert(done1 + rest@ =~= w);
        }
        match walk.failure {
            Some(e) => {
                proof {
                    assert forall|j: int| 0 <= j < done1.len() implies done1[j] == w[j] by {
                        assert((done1 + rest@)[j] == done1[j]);
                    }
                    assert(done1.last() == walk);
                    assert(first_failure(done1) == walk.failure);
                    lemma_failure_prefix(w, done1);
                }
                return Err(e);
            },
            None => {},
        }
        let ghost base = all_walked(done);
        let mut skills = walk.skills;
        let ghost ws = skills@;
        let mut k: usize = 0;
        assert(ws.len() == skills.len());
        assert(base + ws.take(0) =~= base);
        assert(ws.skip(0) =~= ws);
        while skills.len() > 0
            invariant
                all@ == first_by_name(base + ws.take(k as int)),
                skills@ == ws.skip(k as int),
                k <= ws.len(),
                ws.len() <= usize::MAX,
            decreases skills.len(),
        {
            let s = skills.remove(0);
            proof {
                assert(s == ws[k as int]);
                assert((base + ws.take(k + 1)).drop_last() =~= base + ws.take(k as int));
                assert((base + ws.take(k + 1)).last() == s);
                assert(ws.skip(k + 1) =~= ws.skip(k as int).drop_first());
            }
            if !has_name(&all, s.name.as_str()) {
                all.push(s);
            }
            k = k + 1;
        }
        proof {
            assert(ws.take(k as int) =~= ws);
            assert(all_walked(done1) == all_walked(done) + ws);
            done = done1;
        }
    }
    proof {
        assert(done =~= w);
    }
    Ok(sort_by_name(all))
}

/// A failure in a prefix of the walks is the first failure of them all.
proof fn lemma_failure_prefix(w: Seq<DirWalk>, prefix: Seq<DirWalk>)
    requires
        prefix.len() <= w.len(),
        forall|i: int| 0 <= i < prefix.len() ==> prefix[i] == w[i],
        first_failure(prefix) is Some,
    ensures
        first_failure(w) == first_failure(prefix),
    decreases w.len(),
{
    if w.len() > prefix.len() {
        lemma_failure_prefix(w.drop_last(), prefix);
    } else {
        assert(w =~= prefix);
    }
}

/// Loading several dirs keeps one skill per name: the names of
/// `first_by_name(s)` never repeat, and a name is kept exactly when some
/// skill of `s` has it.
pub proof fn lemma_first_by_name_unique(s: Seq<Skill>)
    ensures
        skill_names(first_by_name(s)).no_duplicates(),
        forall|n: Seq<char>| #[trigger] skill_names(first_by_name(s)).contains(n) == skill_names(s).contains(n),
    decreases s.len(),
{
    if s.len() > 0 {
        let rest = first_by_name(s.drop_last());
        lemma_first_by_name_unique(s.drop_last());
        let x = s.last();
        assert(s =~= s.drop_last().push(x));
        assert(skill_names(s) =~= skill_names(s.drop_last()).push(x.name@));
        if !skill_names(rest).contains(x.name@) {
            assert(skill_names(rest.push(x)) =~= skill_names(rest).push(x.name@));
            assert forall|i: int, j: int|
                0 <= i < j < skill_names(rest.push(x)).len() implies skill_names(rest.push(x))[i] != skill_names(
                rest.push(x),
            )[j] by {
                if j == rest.len() {
                    assert(skill_names(rest)[i] == skill_names(rest.push(x))[i]);
                }
            }
        }
        assert forall|n: Seq<char>| #[trigger] skill_names(first_by_name(s)).contains(n) == skill_names(s).contains(n) by {
            crate::prune::lemma_contains_push(skill_names(s.drop_last()), x.name@, n);
            crate::prune::lemma_contains_push(skill_names(rest), x.name@, n);
        }
    }
}

} // verus!
