//! The device identity cache.
//!
//! Add events carry rich metadata; Remove events may arrive after the kernel
//! has already stripped it. The cache bridges that asymmetry: it keeps the
//! name recorded at Add time under the device key, and hands it back — at
//! most once — when the device is removed. It is a transient, in-process
//! structure, owned and mutated by a single execution context.

use crate::text::str_eq;
use vstd::prelude::*;

verus! {

/// Mapping from a device key to the last recorded human-readable name.
/// Viewed as a [`Map`] from key characters to name characters.
pub struct NameCache {
    entries: Vec<(String, String)>,
}

impl View for NameCache {
    type V = Map<Seq<char>, Seq<char>>;

    closed spec fn view(&self) -> Map<Seq<char>, Seq<char>> {
        Map::new(
            |k: Seq<char>| self.spec_contains(k),
            |k: Seq<char>| self.entries@[self.spec_index_of(k)].1@,
        )
    }
}

impl NameCache {
    /// Well-formed: keys are pairwise distinct.
    pub closed spec fn wf(self) -> bool {
        forall|i: int, j: int|
            0 <= i < j < self.entries@.len() ==> self.entries@[i].0@ != self.entries@[j].0@
    }

    /// Some entry carries key `k`.
    closed spec fn spec_contains(self, k: Seq<char>) -> bool {
        exists|i: int| 0 <= i < self.entries@.len() && self.entries@[i].0@ == k
    }

    /// The index of the entry carrying key `k`, when one exists.
    closed spec fn spec_index_of(self, k: Seq<char>) -> int {
        choose|i: int| 0 <= i < self.entries@.len() && self.entries@[i].0@ == k
    }

    /// The entry at a valid index decides membership and value of its key.
    proof fn lemma_view_at(self, i: int)
        requires
            self.wf(),
            0 <= i < self.entries@.len(),
        ensures
            self@.contains_key(self.entries@[i].0@),
            self@[self.entries@[i].0@] == self.entries@[i].1@,
    {
        let k = self.entries@[i].0@;
        assert(self.spec_contains(k));
        let j = self.spec_index_of(k);
        assert(0 <= j < self.entries@.len() && self.entries@[j].0@ == k);
        if i < j {
            assert(self.entries@[i].0@ != self.entries@[j].0@);
        } else if j < i {
            assert(self.entries@[j].0@ != self.entries@[i].0@);
        }
    }

    /// Removing the entry at index `i` removes exactly its key from the view.
    proof fn lemma_remove_entry(pre: NameCache, post: NameCache, i: int)
        requires
            pre.wf(),
            0 <= i < pre.entries@.len(),
            post.entries@ == pre.entries@.remove(i),
        ensures
            post.wf(),
            !post.spec_contains(pre.entries@[i].0@),
            post@ == pre@.remove(pre.entries@[i].0@),
    {
        let ki = pre.entries@[i].0@;
        let pe = pre.entries@;
        let qe = post.entries@;
        assert(qe.len() == pe.len() - 1);
        assert(forall|x: int| 0 <= x < i ==> qe[x] == pe[x]);
        assert(forall|x: int| i <= x < qe.len() ==> qe[x] == pe[x + 1]);
        assert(post.wf()) by {
            assert forall|x: int, y: int| 0 <= x < y < qe.len() implies qe[x].0@ != qe[y].0@ by {
                let px = if x < i { x } else { x + 1 };
                let py = if y < i { y } else { y + 1 };
                assert(qe[x] == pe[px]);
                assert(qe[y] == pe[py]);
                assert(pe[px].0@ != pe[py].0@);
            }
        }
        assert(!post.spec_contains(ki)) by {
            if post.spec_contains(ki) {
                let x = choose|x: int| 0 <= x < qe.len() && qe[x].0@ == ki;
                let px = if x < i { x } else { x + 1 };
                assert(qe[x] == pe[px]);
                assert(px != i);
                if px < i {
                    assert(pe[px].0@ != pe[i].0@);
                } else {
                    assert(pe[i].0@ != pe[px].0@);
                }
            }
        }
        assert forall|k: Seq<char>| post@.contains_key(k) implies pre@.remove(ki).contains_key(k)
            && post@[k] == pre@.remove(ki)[k] by {
            let x = choose|x: int| 0 <= x < qe.len() && qe[x].0@ == k;
            let px = if x < i { x } else { x + 1 };
            assert(qe[x] == pe[px]);
            assert(k != ki);
            pre.lemma_view_at(px);
            post.lemma_view_at(x);
        }
        assert forall|k: Seq<char>| pre@.remove(ki).contains_key(k) implies post@.contains_key(
            k,
        ) by {
            let px = choose|px: int| 0 <= px < pe.len() && pe[px].0@ == k;
            assert(k != ki);
            assert(px != i);
            let x = if px < i { px } else { px - 1 };
            assert(qe[x] == pe[px]);
            assert(post.spec_contains(k));
        }
        assert(post@ =~= pre@.remove(ki));
    }

    /// Appending an entry with a fresh key inserts exactly that key.
    proof fn lemma_push_entry(pre: NameCache, post: NameCache, key: Seq<char>, name: Seq<char>)
        requires
            pre.wf(),
            !pre.spec_contains(key),
            post.entries@.len() == pre.entries@.len() + 1,
            forall|x: int| 0 <= x < pre.entries@.len() ==> post.entries@[x] == pre.entries@[x],
            post.entries@.last().0@ == key,
            post.entries@.last().1@ == name,
        ensures
            post.wf(),
            post@ == pre@.insert(key, name),
    {
        let pe = pre.entries@;
        let qe = post.entries@;
        let n = pe.len();
        assert(post.wf()) by {
            assert forall|x: int, y: int| 0 <= x < y < qe.len() implies qe[x].0@ != qe[y].0@ by {
                if y < n {
                    assert(pe[x].0@ != pe[y].0@);
                } else {
                    assert(qe[y].0@ == key);
                    assert(qe[x] == pe[x]);
                    if pe[x].0@ == key {
                        assert(0 <= x < pe.len() && pe[x].0@ == key);
                        assert(pre.spec_contains(key));
                    }
                }
            }
        }
        assert forall|k: Seq<char>| post@.contains_key(k) implies pre@.insert(key, name).contains_key(
            k,
        ) && post@[k] == pre@.insert(key, name)[k] by {
            let x = choose|x: int| 0 <= x < qe.len() && qe[x].0@ == k;
            post.lemma_view_at(x);
            if x < n {
                assert(qe[x] == pe[x]);
                assert(k != key);
                pre.lemma_view_at(x);
            } else {
                assert(k == key);
            }
        }
        assert forall|k: Seq<char>| pre@.insert(key, name).contains_key(k) implies post@.contains_key(
            k,
        ) by {
            if k == key {
                assert(qe[n as int].0@ == k);
                assert(post.spec_contains(k));
            } else {
                let px = choose|px: int| 0 <= px < pe.len() && pe[px].0@ == k;
                assert(qe[px] == pe[px]);
                assert(post.spec_contains(k));
            }
        }
        assert(post@ =~= pre@.insert(key, name));
    }

    /// Creates an empty cache.
    pub fn new() -> (c: NameCache)
        ensures
            c.wf(),
            c@ == Map::<Seq<char>, Seq<char>>::empty(),
    {
        let c = NameCache { entries: Vec::new() };
        proof {
            assert(c@ =~= Map::<Seq<char>, Seq<char>>::empty());
        }
        c
    }

    /// The index of the entry carrying `key`, if one exists.
    fn find_index(&self, key: &str) -> (r: Option<usize>)
        ensures
            match r {
                Some(i) => i < self.entries@.len() && self.entries@[i as int].0@ == key@,
                None => !self.spec_contains(key@),
            },
    {
        let n = self.entries.len();
        let mut i: usize = 0;
        while i < n
            invariant
                n == self.entries@.len(),
                i <= n,
                forall|j: int| 0 <= j < i ==> self.entries@[j].0@ != key@,
            decreases n - i,
        {
            if str_eq(self.entries[i].0.as_str(), key) {
                return Some(i);
            }
            i += 1;
        }
        None
    }

    /// Records `name` under `key`, overwriting any prior entry for the same
    /// key. Called on Add.
    pub fn record(&mut self, key: String, name: String)
        requires
            old(self).wf(),
        ensures
            final(self).wf(),
            final(self)@ == old(self)@.insert(key@, name@),
    {
        let ghost pre = *self;
        match self.find_index(key.as_str()) {
            Some(i) => {
                let _ = self.entries.remove(i);
                proof {
                    NameCache::lemma_remove_entry(pre, *self, i as int);
                }
            },
            None => {},
        }
        let ghost mid = *self;
        let ghost k = key@;
        let ghost v = name@;
        self.entries.push((key, name));
        proof {
            NameCache::lemma_push_entry(mid, *self, k, v);
            if pre.spec_contains(k) {
                assert(self@ =~= pre@.insert(k, v));
            }
        }
    }

    /// Removes and returns the name recorded under `key`; if the key was
    /// never recorded, returns `fallback` and leaves the cache unchanged.
    /// Called on Remove.
    pub fn take(&mut self, key: &String, fallback: String) -> (name: String)
        requires
            old(self).wf(),
        ensures
            final(self).wf(),
            old(self)@.contains_key(key@) ==> name@ == old(self)@[key@] && final(self)@ == old(
                self,
            )@.remove(key@),
            !old(self)@.contains_key(key@) ==> name@ == fallback@ && final(self)@ == old(self)@,
    {
        let ghost pre = *self;
        match self.find_index(key.as_str()) {
            Some(i) => {
                let entry = self.entries.remove(i);
                proof {
                    pre.lemma_view_at(i as int);
                    NameCache::lemma_remove_entry(pre, *self, i as int);
                }
                entry.1
            },
            None => {
                proof {
                    assert(!pre@.contains_key(key@));
                }
                fallback
            },
        }
    }
}

} // verus!
