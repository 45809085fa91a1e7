//! A name-keyed table: the shape of both skill lock files (`skills: {name:
//! entry}`), kept as two parallel vectors whose keys never repeat.

use vstd::prelude::*;

use crate::text::{chars_of, str_eq};

verus! {

/// Position of the first `k` in `keys`, or `keys.len()` when there is none.
pub open spec fn key_pos(keys: Seq<Seq<char>>, k: Seq<char>) -> int
    decreases keys.len(),
{
    if keys.len() == 0 {
        0
    } else if keys[0] == k {
        0
    } else {
        1 + key_pos(keys.drop_first(), k)
    }
}

pub proof fn lemma_key_pos(keys: Seq<Seq<char>>, k: Seq<char>, i: int)
    requires
        0 <= i <= keys.len(),
        forall|j: int| 0 <= j < i ==> #[trigger] keys[j] != k,
        i == keys.len() || keys[i] == k,
    ensures
        key_pos(keys, k) == i,
    decreases i,
{
    if i > 0 {
        let t = keys.drop_first();
        assert forall|j: int| 0 <= j < i - 1 implies #[trigger] t[j] != k by {
            assert(t[j] == keys[j + 1]);
        }
        lemma_key_pos(t, k, i - 1);
    }
}

pub proof fn lemma_key_pos_bounds(keys: Seq<Seq<char>>, k: Seq<char>)
    ensures
        0 <= key_pos(keys, k) <= keys.len(),
        key_pos(keys, k) < keys.len() ==> keys[key_pos(keys, k)] == k,
        key_pos(keys, k) == keys.len() ==> !keys.contains(k),
    decreases keys.len(),
{
    if keys.len() > 0 && keys[0] != k {
        lemma_key_pos_bounds(keys.drop_first(), k);
        if key_pos(keys, k) == keys.len() {
            assert forall|j: int| 0 <= j < keys.len() implies keys[j] != k by {
                if j > 0 {
                    assert(keys.drop_first()[j - 1] == keys[j]);
                }
            }
        }
    }
}

/// The character views of a sequence of strings.
pub open spec fn views(v: Seq<String>) -> Seq<Seq<char>> {
    v.map_values(|s: String| s@)
}

/// Name-keyed table. `names[i]` is the key of `entries[i]`. Keys keep the
/// order they were inserted in: the table itself orders nothing, so the
/// order of its keys (and of the keys a prune reports) is the order in which
/// the caller filled it from the lock file.
pub struct LockTable<E> {
    pub names: Vec<String>,
    pub entries: Vec<E>,
}

impl<E> LockTable<E> {
    /// The keys, in insertion order.
    pub open spec fn keys(&self) -> Seq<Seq<char>> {
        views(self.names@)
    }

    /// Parallel vectors and no key twice.
    pub open spec fn wf(&self) -> bool {
        &&& self.names.len() == self.entries.len()
        &&& self.keys().no_duplicates()
    }

    pub open spec fn has(&self, k: Seq<char>) -> bool {
        self.keys().contains(k)
    }

    /// The entry stored under `k`.
    pub open spec fn lookup(&self, k: Seq<char>) -> Option<E> {
        let i = key_pos(self.keys(), k);
        if i < self.keys().len() {
            Some(self.entries@[i])
        } else {
            None
        }
    }

    pub proof fn lemma_has_lookup(&self, k: Seq<char>)
        requires
            self.wf(),
        ensures
            self.has(k) == (self.lookup(k) is Some),
    {
        lemma_key_pos_bounds(self.keys(), k);
        if self.has(k) {
            let j = choose|j: int| 0 <= j < self.keys().len() && self.keys()[j] == k;
        }
    }

    pub fn new() -> (t: Self)
        ensures
            t.wf(),
            t.keys() == Seq::<Seq<char>>::empty(),
            forall|k: Seq<char>| #[trigger] t.lookup(k) is None,
    {
        let t = LockTable { names: Vec::new(), entries: Vec::new() };
        assert(t.keys() =~= Seq::<Seq<char>>::empty());
        t
    }

    /// Index of `name`, if present.
    pub fn position(&self, name: &str) -> (r: Option<usize>)
        requires
            self.wf(),
        ensures
            r matches Some(i) ==> i == key_pos(self.keys(), name@) && i < self.names.len()
                && self.keys()[i as int] == name@,
            r is None ==> key_pos(self.keys(), name@) == self.keys().len() && !self.has(name@),
    {
        let mut i: usize = 0;
        while i < self.names.len()
            invariant
                i <= self.names.len(),
                forall|j: int| 0 <= j < i ==> #[trigger] self.keys()[j] != name@,
            decreases self.names.len() - i,
        {
            if str_eq(self.names[i].as_str(), name) {
                proof {
                    lemma_key_pos(self.keys(), name@, i as int);
                }
                return Some(i);
            }
            i = i + 1;
        }
        proof {
            lemma_key_pos(self.keys(), name@, i as int);
            lemma_key_pos_bounds(self.keys(), name@);
        }
        None
    }

    pub fn contains_key(&self, name: &str) -> (r: bool)
        requires
            self.wf(),
        ensures
            r == self.has(name@),
            r == self.lookup(name@) is Some,
    {
        match self.position(name) {
            Some(i) => {
                assert(self.keys().contains(name@));
                true
            },
            None => false,
        }
    }

    pub fn get(&self, name: &str) -> (r: Option<&E>)
        requires
            self.wf(),
        ensures
            r matches Some(e) ==> self.lookup(name@) == Some(*e),
            r is None ==> self.lookup(name@) is None,
            r is Some == self.has(name@),
    {
        match self.position(name) {
            Some(i) => {
                assert(self.keys().contains(name@));
                Some(&self.entries[i])
            },
            None => None,
        }
    }

    /// Store `entry` under `name`, returning what it replaced.
    pub fn insert(&mut self, name: String, entry: E) -> (replaced: Option<E>)
        requires
            old(self).wf(),
        ensures
            final(self).wf(),
            replaced == old(self).lookup(name@),
            final(self).lookup(name@) == Some(entry),
            forall|k: Seq<char>| k != name@ ==> #[trigger] final(self).lookup(k) == old(self).lookup(
                k,
            ),
            forall|k: Seq<char>| #[trigger] final(self).has(k) == (old(self).has(k) || k == name@),
    {
        let ghost old_keys = self.keys();
        match self.position(name.as_str()) {
            Some(i) => {
                let mut slot = entry;
                std::mem::swap(&mut slot, &mut self.entries[i]);
                assert(self.keys() == old_keys);
                proof {
                    lemma_key_pos(self.keys(), name@, i as int);
                    assert forall|k: Seq<char>| k != name@ implies #[trigger] self.lookup(k)
                        == old(self).lookup(k) by {
                        lemma_key_pos_bounds(old_keys, k);
                    }
                }
                Some(slot)
            },
            None => {
                let ghost n = name@;
                self.names.push(name);
                self.entries.push(entry);
                assert(self.keys() =~= old_keys.push(n));
                proof {
                    assert forall|j: int| 0 <= j < old_keys.len() implies #[trigger] self.keys()[j]
                        != n by {
                        assert(old_keys[j] == self.keys()[j]);
                    }
                    lemma_key_pos(self.keys(), n, old_keys.len() as int);
                    assert forall|k: Seq<char>| k != n implies #[trigger] self.lookup(k)
                        == old(self).lookup(k) by {
                        lemma_key_pos_bounds(old_keys, k);
                        let p = key_pos(old_keys, k);
                        if p < old_keys.len() {
                            assert forall|j: int| 0 <= j < p implies #[trigger] self.keys()[j]
                                != k by {
                                lemma_key_pos(old_keys, k, key_pos(old_keys, k));
                                assert(self.keys()[j] == old_keys[j]);
                            }
                            lemma_key_pos(self.keys(), k, p);
                        } else {
                            assert forall|j: int| 0 <= j < self.keys().len() implies #[trigger] self.keys()[j]
                                != k by {
                                if j < old_keys.len() {
                                    assert(self.keys()[j] == old_keys[j]);
                                    assert(!old_keys.contains(k));
                                }
                            }
                            lemma_key_pos(self.keys(), k, self.keys().len() as int);
                        }
                    }
                    assert forall|k: Seq<char>| #[trigger] self.has(k) == (old(self).has(k) || k
                        == n) by {
                        if self.has(k) {
                            let j = choose|j: int| 0 <= j < self.keys().len() && self.keys()[j] == k;
                            if j < old_keys.len() {
                                assert(old_keys[j] == k);
                            }
                        }
                        if old(self).has(k) {
                            let j = choose|j: int| 0 <= j < old_keys.len() && old_keys[j] == k;
                            assert(self.keys()[j] == k);
                        }
                        if k == n {
                            assert(self.keys()[old_keys.len() as int] == k);
                        }
                    }
                }
                None
            },
        }
    }

    /// Remove `name`, returning its entry.
    pub fn remove(&mut self, name: &str) -> (removed: Option<E>)
        requires
            old(self).wf(),
        ensures
            final(self).wf(),
            removed == old(self).lookup(name@),
            final(self).lookup(name@) is None,
            forall|k: Seq<char>| k != name@ ==> #[trigger] final(self).lookup(k) == old(self).lookup(
                k,
            ),
            forall|k: Seq<char>| #[trigger] final(self).has(k) == (old(self).has(k) && k != name@),
    {
        let ghost old_keys = self.keys();
        match self.position(name) {
            None => {
                assert forall|k: Seq<char>| #[trigger] self.has(k) == (old(self).has(k) && k
                    != name@) by {}
                None
            },
            Some(i) => {
                self.names.remove(i);
                let e = self.entries.remove(i);
                assert(self.keys() =~= old_keys.remove(i as int));
                proof {
                    assert forall|j: int| 0 <= j < self.keys().len() implies #[trigger] self.keys()[j]
                        != name@ by {
                        if j < i {
                            assert(self.keys()[j] == old_keys[j]);
                        } else {
                            assert(self.keys()[j] == old_keys[j + 1]);
                        }
                    }
                    lemma_key_pos(self.keys(), name@, self.keys().len() as int);
                    assert forall|k: Seq<char>| k != name@ implies #[trigger] self.lookup(k)
                        == old(self).lookup(k) by {
                        lemma_key_pos_bounds(old_keys, k);
                        let p = key_pos(old_keys, k);
                        lemma_key_pos(old_keys, k, p);
                        if p < old_keys.len() {
                            assert(p != i);
                            let q = if p < i {
                                p
                            } else {
                                p - 1
                            };
                            assert forall|j: int| 0 <= j < q implies #[trigger] self.keys()[j]
                                != k by {
                                if j < i {
                                    assert(self.keys()[j] == old_keys[j]);
                                } else {
                                    assert(self.keys()[j] == old_keys[j + 1]);
                                }
                            }
                            assert(self.keys()[q] == k);
                            lemma_key_pos(self.keys(), k, q);
                        } else {
                            assert forall|j: int| 0 <= j < self.keys().len() implies #[trigger] self.keys()[j]
                                != k by {
                                if j < i {
                                    assert(self.keys()[j] == old_keys[j]);
                                } else {
                                    assert(self.keys()[j] == old_keys[j + 1]);
                                }
                            }
                            lemma_key_pos(self.keys(), k, self.keys().len() as int);
                        }
                    }
                    assert forall|k: Seq<char>| #[trigger] self.has(k) == (old(self).has(k) && k
                        != name@) by {
                        if self.has(k) {
                            let j = choose|j: int| 0 <= j < self.keys().len() && self.keys()[j] == k;
                            if j < i {
                                assert(old_keys[j] == k);
                            } else {
                                assert(old_keys[j + 1] == k);
                            }
                        }
                        if old(self).has(k) && k != name@ {
                            let j = choose|j: int| 0 <= j < old_keys.len() && old_keys[j] == k;
                            assert(j != i);
                            if j < i {
                                assert(self.keys()[j] == k);
                            } else {
                                assert(self.keys()[j - 1] == k);
                            }
                        }
                    }
                }
                Some(e)
            },
        }
    }

    /// The keys, in table order.
    pub fn key_list(&self) -> (out: Vec<String>)
        ensures
            views(out@) == self.keys(),
    {
        let mut out: Vec<String> = Vec::new();
        let mut i: usize = 0;
        while i < self.names.len()
            invariant
                i <= self.names.len(),
                out.len() == i,
                views(out@) == self.keys().take(i as int),
            decreases self.names.len() - i,
        {
            let ghost before = out@;
            let name = self.names[i].clone();
            assert(name@ == self.keys()[i as int]);
            out.push(name);
            assert(out@ == before.push(name));
            assert forall|j: int| 0 <= j < i + 1 implies #[trigger] views(out@)[j] == self.keys().take(
                i + 1,
            )[j] by {
                if j < i {
                    assert(out@[j] == before[j]);
                    assert(views(before)[j] == self.keys().take(i as int)[j]);
                }
            }
            assert(views(out@) =~= self.keys().take(i + 1));
            i = i + 1;
        }
        assert(self.keys().take(self.names.len() as int) =~= self.keys());
        out
    }
}

} // verus!
