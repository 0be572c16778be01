//! A small keyed table, for keys that are compared by what they hold.

use vstd::prelude::*;

verus! {

/// A key of a `Table`: two keys are the same key where their views are equal.
pub trait TableKey: View + Sized {
    /// Whether `self` and `other` are the same key.
    fn same_key(&self, other: &Self) -> (same: bool)
        ensures
            same == (self@ == other@),
    ;
}

impl TableKey for String {
    fn same_key(&self, other: &Self) -> (same: bool) {
        *self == *other
    }
}

/// A table from keys to values in which no key occurs twice.
#[derive(Debug)]
pub struct Table<K, V> {
    entries: Vec<(K, V)>,
}

impl<K: TableKey, V> Table<K, V> {
    /// No key occurs twice. `new` makes such a table and every method keeps
    /// it so.
    pub closed spec fn wf(&self) -> bool {
        forall|i: int, j: int|
            0 <= i < j < self.entries@.len() ==> (#[trigger] self.entries@[i]).0@
                != (#[trigger] self.entries@[j]).0@
    }

    /// Whether the table has an entry for `key`.
    pub closed spec fn has(&self, key: K::V) -> bool {
        exists|i: int| 0 <= i < self.entries@.len() && (#[trigger] self.entries@[i]).0@ == key
    }

    /// The value the table holds for `key`, where it has an entry for it.
    pub closed spec fn at(&self, key: K::V) -> V {
        self.entries@[choose|i: int|
            0 <= i < self.entries@.len() && (#[trigger] self.entries@[i]).0@ == key].1
    }

    /// The table as a map.
    pub open spec fn map(&self) -> Map<K::V, V> {
        Map::new(|key: K::V| self.has(key), |key: K::V| self.at(key))
    }

    /// The number of entries.
    pub closed spec fn count(&self) -> nat {
        self.entries@.len()
    }

    /// In a table without double keys, the entry at a position is the entry
    /// for its key.
    proof fn lemma_entry(&self, i: int)
        requires
            self.wf(),
            0 <= i < self.entries@.len(),
        ensures
            self.has(self.entries@[i].0@),
            self.at(self.entries@[i].0@) == self.entries@[i].1,
    {
        let key = self.entries@[i].0@;
        let j = choose|j: int|
            0 <= j < self.entries@.len() && (#[trigger] self.entries@[j]).0@ == key;
        assert(j == i);
    }

    /// An empty table.
    pub fn new() -> (table: Self)
        ensures
            table.wf(),
            table.count() == 0,
            table.map() == Map::<K::V, V>::empty(),
    {
        let table = Table { entries: Vec::new() };
        assert(table.map() =~= Map::<K::V, V>::empty());
        table
    }

    /// The number of entries.
    pub fn len(&self) -> (count: usize)
        ensures
            count == self.count(),
    {
        self.entries.len()
    }

    /// The position of the entry for `key`.
    fn position(&self, key: &K) -> (found: Option<usize>)
        ensures
            match found {
                Some(i) => i < self.entries@.len() && self.entries@[i as int].0@ == key@,
                None => !self.has(key@),
            },
    {
        let mut i: usize = 0;
        while i < self.entries.len()
            invariant
                i <= self.entries@.len(),
                forall|j: int| 0 <= j < i ==> (#[trigger] self.entries@[j]).0@ != key@,
            decreases self.entries@.len() - i,
        {
            if self.entries[i].0.same_key(key) {
                return Some(i);
            }
            i += 1;
        }
        None
    }

    /// The value for `key`, if the table has one.
    pub fn get(&self, key: &K) -> (value: Option<&V>)
        requires
            self.wf(),
        ensures
            match value {
                Some(held) => self.has(key@) && *held == self.at(key@),
                None => !self.has(key@),
            },
    {
        match self.position(key) {
            Some(i) => {
                proof {
                    self.lemma_entry(i as int);
                }
                Some(&self.entries[i].1)
            },
            None => None,
        }
    }

    /// Takes the entry for `key` out of the table and returns its value.
    pub fn take(&mut self, key: &K) -> (value: Option<V>)
        requires
            old(self).wf(),
        ensures
            final(self).wf(),
            final(self).map() == old(self).map().remove(key@),
            !final(self).has(key@),
            match value {
                Some(held) => old(self).has(key@) && held == old(self).at(key@) && final(
                    self).count() == old(self).count() - 1,
                None => !old(self).has(key@) && final(self).count() == old(self).count(),
            },
    {
        match self.position(key) {
            None => {
                assert(self.map() =~= old(self).map().remove(key@));
                None
            },
            Some(i) => {
                proof {
                    self.lemma_entry(i as int);
                }
                let entry = self.entries.remove(i);
                proof {
                    let before = old(self).entries@;
                    let after = self.entries@;
                    assert(after == before.remove(i as int));
                    assert forall|a: int, b: int| 0 <= a < b < after.len() implies (
                    #[trigger] after[a]).0@ != (#[trigger] after[b]).0@ by {
                        let x = if a < i { a } else { a + 1 };
                        let y = if b < i { b } else { b + 1 };
                        assert(after[a] == before[x]);
                        assert(after[b] == before[y]);
                    }
                    assert forall|k: K::V| #[trigger] self.has(k) <==> (old(self).has(k) && k
                        != key@) by {
                        if self.has(k) {
                            let a = choose|a: int|
                                0 <= a < after.len() && (#[trigger] after[a]).0@ == k;
                            let x = if a < i { a } else { a + 1 };
                            assert(after[a] == before[x]);
                            assert(before[x].0@ == k);
                            assert(before[i as int].0@ == key@);
                        }
                        if old(self).has(k) && k != key@ {
                            let x = choose|x: int|
                                0 <= x < before.len() && (#[trigger] before[x]).0@ == k;
                            let a = if x < i { x } else { x - 1 };
                            assert(after[a] == before[x]);
                        }
                    }
                    assert forall|k: K::V| #[trigger] self.has(k) implies self.at(k) == old(
                        self).at(k) by {
                        let a = choose|a: int|
                            0 <= a < after.len() && (#[trigger] after[a]).0@ == k;
                        let x = if a < i { a } else { a + 1 };
                        assert(after[a] == before[x]);
                        self.lemma_entry(a);
                        old(self).lemma_entry(x);
                    }
                    assert(self.map() =~= old(self).map().remove(key@));
                }
                Some(entry.1)
            },
        }
    }

    /// Sets the value for `key`, and returns the value that the table held
    /// for it before.
    pub fn insert(&mut self, key: K, value: V) -> (previous: Option<V>)
        requires
            old(self).wf(),
        ensures
            final(self).wf(),
            final(self).map() == old(self).map().insert(key@, value),
            final(self).has(key@),
            final(self).at(key@) == value,
            match previous {
                Some(held) => old(self).has(key@) && held == old(self).at(key@) && final(
                    self).count() == old(self).count(),
                None => !old(self).has(key@) && final(self).count() == old(self).count() + 1,
            },
    {
        let previous = self.take(&key);
        let ghost middle = *self;
        self.entries.push((key, value));
        proof {
            let before = middle.entries@;
            let after = self.entries@;
            let last = before.len() as int;
            assert(after == before.push((key, value)));
            assert forall|a: int, b: int| 0 <= a < b < after.len() implies (#[trigger] after[a]).0@
                != (#[trigger] after[b]).0@ by {
                if b == last {
                    assert(after[a] == before[a]);
                } else {
                    assert(after[a] == before[a]);
                    assert(after[b] == before[b]);
                }
            }
            assert(after[last].0@ == key@);
            self.lemma_entry(last);
            assert forall|k: K::V| #[trigger] self.has(k) <==> (middle.has(k) || k == key@) by {
                if self.has(k) && k != key@ {
                    let a = choose|a: int| 0 <= a < after.len() && (#[trigger] after[a]).0@ == k;
                    assert(after[a] == before[a]);
                }
                if middle.has(k) {
                    let a = choose|a: int| 0 <= a < before.len() && (#[trigger] before[a]).0@ == k;
                    assert(after[a] == before[a]);
                }
            }
            assert forall|k: K::V| #[trigger] middle.has(k) implies self.at(k) == middle.at(k) by {
                let a = choose|a: int| 0 <= a < before.len() && (#[trigger] before[a]).0@ == k;
                assert(after[a] == before[a]);
                self.lemma_entry(a);
                middle.lemma_entry(a);
            }
            let wanted = old(self).map().insert(key@, value);
            assert forall|k: K::V| self.map().dom().contains(k) == wanted.dom().contains(k) by {
                assert(middle.map().dom().contains(k) == middle.has(k));
            }
            assert forall|k: K::V| self.map().dom().contains(k) implies #[trigger] self.map()[k]
                == wanted[k] by {
                if k != key@ {
                    assert(middle.has(k));
                    assert(middle.map()[k] == middle.at(k));
                }
            }
            assert(self.map() =~= wanted);
        }
        previous
    }
}

} // verus!
