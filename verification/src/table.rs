//! Keyed entries, such as a contract keeps in its persistent storage.
use crate::address::Address;
use crate::bytes::{same_word, Bytes32};
use vstd::prelude::*;

verus! {

/// A key whose equality can be tested.
pub trait Key: Copy {
    /// Whether two keys are equal.
    fn same(&self, other: &Self) -> (r: bool)
        ensures
            r == (*self == *other),
    ;
}

impl Key for Bytes32 {
    fn same(&self, other: &Self) -> (r: bool) {
        same_word(self, other)
    }
}

impl Key for Address {
    fn same(&self, other: &Self) -> (r: bool) {
        self.is(other)
    }
}

/// Entries of type `V`, at most one for each key.
pub struct Table<K: Key, V> {
    entries: Vec<(K, V)>,
}

impl<K: Key, V> View for Table<K, V> {
    type V = Map<K, V>;

    closed spec fn view(&self) -> Map<K, V> {
        Map::new(
            |k: K| exists|i: int| holds_at(self.entries@, i, k),
            |k: K| self.entries@[choose|i: int| holds_at(self.entries@, i, k)].1,
        )
    }
}

spec fn holds_at<K: Key, V>(entries: Seq<(K, V)>, i: int, k: K) -> bool {
    0 <= i < entries.len() && entries[i].0 == k
}

impl<K: Key, V> Table<K, V> {
    /// No key occurs twice.
    #[verifier::type_invariant]
    spec fn distinct(self) -> bool {
        forall|i: int, j: int|
            0 <= i < j < self.entries@.len() ==> #[trigger] self.entries@[i].0
                != #[trigger] self.entries@[j].0
    }

    /// A table without entries.
    pub fn new() -> (r: Self)
        ensures
            r@ == Map::<K, V>::empty(),
    {
        let r = Table { entries: Vec::new() };
        assert(r@ =~= Map::<K, V>::empty());
        r
    }

    fn find(&self, k: &K) -> (r: Option<usize>)
        ensures
            match r {
                Some(i) => holds_at(self.entries@, i as int, *k),
                None => forall|i: int| !holds_at(self.entries@, i, *k),
            },
    {
        let mut i: usize = 0;
        while i < self.entries.len()
            invariant
                i <= self.entries@.len(),
                forall|j: int| 0 <= j < i ==> self.entries@[j].0 != *k,
            decreases self.entries@.len() - i,
        {
            if self.entries[i].0.same(k) {
                return Some(i);
            }
            i += 1;
        }
        None
    }

    proof fn lemma_entry(entries: Seq<(K, V)>, m: Map<K, V>, i: int)
        requires
            0 <= i < entries.len(),
            forall|i: int, j: int|
                0 <= i < j < entries.len() ==> #[trigger] entries[i].0 != #[trigger] entries[j].0,
            m == Map::new(
                |k: K| exists|i: int| holds_at(entries, i, k),
                |k: K| entries[choose|i: int| holds_at(entries, i, k)].1,
            ),
        ensures
            m.contains_key(entries[i].0),
            m[entries[i].0] == entries[i].1,
    {
        let k = entries[i].0;
        assert(holds_at(entries, i, k));
        let j = choose|j: int| holds_at(entries, j, k);
        assert(holds_at(entries, j, k));
        assert(i == j);
    }

    /// The entry under `k`.
    pub fn get(&self, k: &K) -> (r: Option<&V>)
        ensures
            r == (if self@.contains_key(*k) {
                Some(&self@[*k])
            } else {
                None
            }),
    {
        proof {
            use_type_invariant(self);
        }
        match self.find(k) {
            Some(i) => {
                proof {
                    Self::lemma_entry(self.entries@, self@, i as int);
                }
                Some(&self.entries[i].1)
            },
            None => None,
        }
    }

    /// Whether there is an entry under `k`.
    pub fn has(&self, k: &K) -> (r: bool)
        ensures
            r == self@.contains_key(*k),
    {
        self.find(k).is_some()
    }

    /// Puts `v` under `k`, in place of what was there.
    pub fn set(&mut self, k: K, v: V)
        ensures
            final(self)@ == old(self)@.insert(k, v),
    {
        proof {
            use_type_invariant(&*self);
        }
        let ghost before = self.entries@;
        let ghost m = self@;
        let at = self.find(&k);
        let mut entries: Vec<(K, V)> = Vec::new();
        std::mem::swap(&mut entries, &mut self.entries);
        match at {
            Some(i) => {
                entries.set(i, (k, v));
            },
            None => {
                entries.push((k, v));
            },
        }
        proof {
            let after = entries@;
            assert forall|i: int, j: int| 0 <= i < j < after.len() implies #[trigger] after[i].0
                != #[trigger] after[j].0 by {
                assert(!holds_at(before, i, k) || before[i].0 == k);
                assert(!holds_at(before, j, k) || before[j].0 == k);
            }
        }
        let ghost after = entries@;
        self.entries = entries;
        proof {
            let w = self@;
            assert forall|x: K| #[trigger] w.contains_key(x) == m.insert(k, v).contains_key(x)
                && (w.contains_key(x) ==> w[x] == m.insert(k, v)[x]) by {
                if w.contains_key(x) {
                    let i = choose|i: int| holds_at(after, i, x);
                    Self::lemma_entry(after, w, i);
                    if x != k {
                        assert(before[i] == after[i]);
                        Self::lemma_entry(before, m, i);
                    } else {
                        let j = if at is Some { at->0 as int } else { before.len() as int };
                        assert(after[j] == (k, v));
                        Self::lemma_entry(after, w, j);
                    }
                }
                if m.contains_key(x) && x != k {
                    let i = choose|i: int| holds_at(before, i, x);
                    assert(after[i] == before[i]);
                    assert(holds_at(after, i, x));
                }
                if x == k {
                    let j = if at is Some { at->0 as int } else { before.len() as int };
                    assert(holds_at(after, j, k));
                }
            }
            assert(w =~= m.insert(k, v));
        }
    }
}

} // verus!
