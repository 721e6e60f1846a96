//! Finite maps kept as a vector of entries with pairwise distinct keys.

use vstd::prelude::*;

verus! {

/// A key of a [`Table`]: two keys are the same entry when their views agree.
pub trait TableKey: View + Sized {
    /// Whether the two keys have the same view.
    fn same(&self, other: &Self) -> (r: bool)
        ensures
            r == (self@ == other@),
    ;

    /// A second key with the same view.
    fn duplicate(&self) -> (r: Self)
        ensures
            r@ == self@,
    ;
}

impl TableKey for String {
    fn same(&self, other: &Self) -> (r: bool) {
        *self == *other
    }

    fn duplicate(&self) -> (r: Self) {
        self.clone()
    }
}

impl TableKey for u64 {
    fn same(&self, other: &Self) -> (r: bool) {
        *self == *other
    }

    fn duplicate(&self) -> (r: Self) {
        *self
    }
}

impl TableKey for u128 {
    fn same(&self, other: &Self) -> (r: bool) {
        *self == *other
    }

    fn duplicate(&self) -> (r: Self) {
        *self
    }
}

/// A finite map from keys to values.
pub struct Table<K: TableKey, V> {
    /// The entries, in no particular order.
    pub entries: Vec<(K, V)>,
}

/// The key views of a sequence of entries.
pub open spec fn entry_keys<K: TableKey, V>(entries: Seq<(K, V)>) -> Seq<K::V> {
    entries.map_values(|e: (K, V)| e.0@)
}

/// Some entry of the sequence has the key.
pub open spec fn has_key<K: TableKey, V>(entries: Seq<(K, V)>, key: K::V) -> bool {
    exists|i: int| 0 <= i < entries.len() && (#[trigger] entries[i]).0@ == key
}

/// An index at which the sequence has the key.
pub open spec fn key_index<K: TableKey, V>(entries: Seq<(K, V)>, key: K::V) -> int {
    choose|i: int| 0 <= i < entries.len() && (#[trigger] entries[i]).0@ == key
}

/// The entries of a map whose value satisfies a predicate.
pub open spec fn where_value<K, V>(m: Map<K, V>, p: spec_fn(V) -> bool) -> Map<K, V> {
    Map::new(|k: K| m.contains_key(k) && p(m[k]), |k: K| m[k])
}

impl<K: TableKey, V> View for Table<K, V> {
    type V = Map<K::V, V>;

    open spec fn view(&self) -> Map<K::V, V> {
        Map::new(
            |k: K::V| has_key(self.entries@, k),
            |k: K::V| self.entries@[key_index(self.entries@, k)].1,
        )
    }
}

impl<K: TableKey, V> Table<K, V> {
    /// No key occurs twice.
    pub open spec fn wf(&self) -> bool {
        forall|i: int, j: int|
            0 <= i < j < self.entries@.len() ==> (#[trigger] self.entries@[i]).0@ != (
            #[trigger] self.entries@[j]).0@
    }

    /// The map has no key.
    pub open spec fn vacant(&self) -> bool {
        self.entries@.len() == 0
    }

    /// Every entry is found in the map under its own key.
    pub proof fn lemma_entry(&self, i: int)
        requires
            self.wf(),
            0 <= i < self.entries@.len(),
        ensures
            self@.contains_key(self.entries@[i].0@),
            self@[self.entries@[i].0@] == self.entries@[i].1,
    {
        let k = self.entries@[i].0@;
        assert(has_key(self.entries@, k));
        let j = key_index(self.entries@, k);
        assert(0 <= j < self.entries@.len() && self.entries@[j].0@ == k);
        assert(i == j);
    }

    /// Every key of the map stands in an entry.
    pub proof fn lemma_key(&self, key: K::V) -> (i: int)
        requires
            self@.contains_key(key),
        ensures
            0 <= i < self.entries@.len(),
            self.entries@[i].0@ == key,
            self.entries@[i].1 == self@[key],
    {
        let i = key_index(self.entries@, key);
        assert(has_key(self.entries@, key));
        i
    }

    /// The map is finite and has as many keys as there are entries.
    pub proof fn lemma_len(&self)
        requires
            self.wf(),
        ensures
            self@.dom().finite(),
            self@.len() == self.entries@.len(),
    {
        let keys = entry_keys(self.entries@);
        assert(keys.no_duplicates()) by {
            assert forall|i: int, j: int| 0 <= i < keys.len() && 0 <= j < keys.len() && i != j
                implies keys[i] != keys[j] by {
                assert(keys[i] == self.entries@[i].0@);
                assert(keys[j] == self.entries@[j].0@);
            }
        }
        keys.unique_seq_to_set();
        assert(keys.to_set() =~= self@.dom()) by {
            assert forall|k: K::V| keys.to_set().contains(k) == self@.dom().contains(k) by {
                if keys.to_set().contains(k) {
                    let i = choose|i: int| 0 <= i < keys.len() && keys[i] == k;
                    assert(self.entries@[i].0@ == k);
                }
                if self@.dom().contains(k) {
                    let i = self.lemma_key(k);
                    assert(keys[i] == k);
                }
            }
        }
    }

    /// The empty map.
    pub fn new() -> (r: Self)
        ensures
            r.wf(),
            r@ == Map::<K::V, V>::empty(),
            r.vacant(),
    {
        let r = Table { entries: Vec::new() };
        assert(r@ =~= Map::<K::V, V>::empty());
        r
    }

    /// The number of keys.
    pub fn len(&self) -> (r: usize)
        requires
            self.wf(),
        ensures
            r == self@.len(),
            r == self.entries@.len(),
    {
        proof {
            self.lemma_len();
        }
        self.entries.len()
    }

    /// The index of the entry with the key.
    pub fn find(&self, key: &K) -> (r: Option<usize>)
        requires
            self.wf(),
        ensures
            match r {
                Some(i) => {
                    &&& i < self.entries@.len()
                    &&& self.entries@[i as int].0@ == key@
                    &&& self@.contains_key(key@)
                    &&& self@[key@] == self.entries@[i as int].1
                },
                None => !self@.contains_key(key@),
            },
    {
        let mut i: usize = 0;
        while i < self.entries.len()
            invariant
                self.wf(),
                i <= self.entries@.len(),
                forall|j: int| 0 <= j < i ==> (#[trigger] self.entries@[j]).0@ != key@,
            decreases self.entries@.len() - i,
        {
            if self.entries[i].0.same(key) {
                proof {
                    self.lemma_entry(i as int);
                }
                return Some(i);
            }
            i += 1;
        }
        None
    }

    /// Whether the map has the key.
    pub fn contains(&self, key: &K) -> (r: bool)
        requires
            self.wf(),
        ensures
            r == self@.contains_key(key@),
    {
        self.find(key).is_some()
    }

    /// The value under the key.
    pub fn get(&self, key: &K) -> (r: Option<&V>)
        requires
            self.wf(),
        ensures
            match r {
                Some(v) => self@.contains_key(key@) && *v == self@[key@],
                None => !self@.contains_key(key@),
            },
    {
        match self.find(key) {
            Some(i) => Some(&self.entries[i].1),
            None => None,
        }
    }

    /// Put a value under the key, in place of the one that was there.
    pub fn insert(&mut self, key: K, value: V) -> (r: Option<V>)
        requires
            old(self).wf(),
        ensures
            final(self).wf(),
            final(self)@ == old(self)@.insert(key@, value),
            match r {
                Some(v) => old(self)@.contains_key(key@) && v == old(self)@[key@],
                None => {
                    &&& !old(self)@.contains_key(key@)
                    &&& final(self).entries@ == old(self).entries@.push((key, value))
                },
            },
    {
        let found = self.find(&key);
        match found {
            Some(i) => {
                let ghost k = key@;
                let (_, previous) = self.entries.swap_remove(i);
                self.entries.push((key, value));
                proof {
                    let n = old(self).entries@.len() as int;
                    let last = n - 1;
                    let before = old(self).entries@;
                    let after = self.entries@;
                    assert(after.len() == n);
                    assert(forall|j: int| 0 <= j < last && j != i ==> #[trigger] after[j] == before[j]);
                    assert(i < last ==> after[i as int] == before[last]);
                    assert(after[last].0@ == k && after[last].1 == value);
                    assert(self.wf()) by {
                        assert forall|a: int, b: int| 0 <= a < b < n implies (#[trigger] after[a]).0@
                            != (#[trigger] after[b]).0@ by {
                            let sa = if a == last { i as int } else if a == i { last } else { a };
                            let sb = if b == last { i as int } else if b == i { last } else { b };
                            assert(after[a].0@ == before[sa].0@);
                            assert(after[b].0@ == before[sb].0@);
                            assert(sa != sb);
                            if sa < sb {
                                assert(before[sa].0@ != before[sb].0@);
                            } else {
                                assert(before[sb].0@ != before[sa].0@);
                            }
                        }
                    }
                    assert(self@ =~= old(self)@.insert(k, value)) by {
                        assert forall|q: K::V| self@.contains_key(q) == old(self)@.insert(k, value).contains_key(q) by {
                            if self@.contains_key(q) && q != k {
                                let j = self.lemma_key(q);
                                let sj = if j == i { last } else { j };
                                assert(before[sj].0@ == q);
                            }
                            if old(self)@.contains_key(q) && q != k {
                                let j = old(self).lemma_key(q);
                                let sj = if j == last { i as int } else { j };
                                assert(after[sj].0@ == q);
                            }
                            if q == k {
                                assert(after[last].0@ == q);
                            }
                        }
                        assert forall|q: K::V| #[trigger] self@.contains_key(q) implies self@[q]
                            == old(self)@.insert(k, value)[q] by {
                            let j = self.lemma_key(q);
                            if q != k {
                                let sj = if j == i { last } else { j };
                                old(self).lemma_entry(sj);
                            } else {
                                self.lemma_entry(last);
                            }
                        }
                    }
                }
                Some(previous)
            },
            None => {
                let ghost k = key@;
                self.entries.push((key, value));
                proof {
                    let before = old(self).entries@;
                    let after = self.entries@;
                    let n = before.len() as int;
                    assert(forall|j: int| 0 <= j < n ==> #[trigger] after[j] == before[j]);
                    assert(forall|j: int| 0 <= j < n ==> (#[trigger] before[j]).0@ != k) by {
                        assert forall|j: int| 0 <= j < n implies (#[trigger] before[j]).0@ != k by {
                            old(self).lemma_entry(j);
                        }
                    }
                    assert(self.wf());
                    assert(self@ =~= old(self)@.insert(k, value)) by {
                        assert forall|q: K::V| self@.contains_key(q) == old(self)@.insert(k, value).contains_key(q) by {
                            if self@.contains_key(q) && q != k {
                                let j = self.lemma_key(q);
                                assert(before[j].0@ == q);
                            }
                            if old(self)@.contains_key(q) {
                                let j = old(self).lemma_key(q);
                                assert(after[j].0@ == q);
                            }
                            if q == k {
                                assert(after[n].0@ == q);
                            }
                        }
                        assert forall|q: K::V| #[trigger] self@.contains_key(q) implies self@[q]
                            == old(self)@.insert(k, value)[q] by {
                            let j = self.lemma_key(q);
                            if q != k {
                                old(self).lemma_entry(j);
                            } else {
                                self.lemma_entry(n);
                            }
                        }
                    }
                }
                None
            },
        }
    }

    /// Replace the value of the entry at an index.
    pub fn set_at(&mut self, index: usize, value: V)
        requires
            old(self).wf(),
            index < old(self).entries@.len(),
        ensures
            final(self).wf(),
            final(self)@ == old(self)@.insert(old(self).entries@[index as int].0@, value),
            final(self).entries@.len() == old(self).entries@.len(),
            forall|j: int|
                0 <= j < old(self).entries@.len() ==> (#[trigger] final(self).entries@[j]).0
                    == old(self).entries@[j].0,
            forall|j: int|
                0 <= j < old(self).entries@.len() && j != index ==> (
                #[trigger] final(self).entries@[j]).1 == old(self).entries@[j].1,
            final(self).entries@[index as int].1 == value,
    {
        self.entries[index].1 = value;
        proof {
            let k = old(self).entries@[index as int].0@;
            let before = old(self).entries@;
            let after = self.entries@;
            assert(forall|j: int| 0 <= j < before.len() ==> (#[trigger] after[j]).0 == before[j].0);
            assert(self.wf()) by {
                assert forall|a: int, b: int| 0 <= a < b < after.len() implies (#[trigger] after[a]).0@
                    != (#[trigger] after[b]).0@ by {
                    assert(before[a].0@ != before[b].0@);
                }
            }
            assert(self@ =~= old(self)@.insert(k, value)) by {
                assert forall|q: K::V| self@.contains_key(q) == old(self)@.insert(k, value).contains_key(q) by {
                    if self@.contains_key(q) {
                        let j = self.lemma_key(q);
                        assert(before[j].0@ == q);
                    }
                    if old(self)@.contains_key(q) || q == k {
                        let j = if q == k { index as int } else { old(self).lemma_key(q) };
                        assert(after[j].0@ == q);
                    }
                }
                assert forall|q: K::V| #[trigger] self@.contains_key(q) implies self@[q]
                    == old(self)@.insert(k, value)[q] by {
                    let j = self.lemma_key(q);
                    old(self).lemma_entry(j);
                    self.lemma_entry(index as int);
                    if q != k {
                        assert(j != index);
                    }
                }
            }
        }
    }

    /// Take the entry at an index out.
    pub fn remove_at(&mut self, index: usize) -> (r: (K, V))
        requires
            old(self).wf(),
            index < old(self).entries@.len(),
        ensures
            final(self).wf(),
            final(self)@ == old(self)@.remove(old(self).entries@[index as int].0@),
            final(self).entries@ == old(self).entries@.remove(index as int),
            r == old(self).entries@[index as int],
    {
        let r = self.entries.remove(index);
        proof {
            let before = old(self).entries@;
            let after = self.entries@;
            let k = before[index as int].0@;
            assert(after == before.remove(index as int));
            assert(self.wf()) by {
                assert forall|a: int, b: int| 0 <= a < b < after.len() implies (#[trigger] after[a]).0@
                    != (#[trigger] after[b]).0@ by {
                    let sa = if a < index { a } else { a + 1 };
                    let sb = if b < index { b } else { b + 1 };
                    assert(before[sa].0@ != before[sb].0@);
                }
            }
            assert(self@ =~= old(self)@.remove(k)) by {
                assert forall|q: K::V| self@.contains_key(q) == old(self)@.remove(k).contains_key(q) by {
                    if self@.contains_key(q) {
                        let j = self.lemma_key(q);
                        let sj = if j < index { j } else { j + 1 };
                        assert(before[sj].0@ == q);
                        if sj < index {
                            assert(before[sj].0@ != before[index as int].0@);
                        } else {
                            assert(before[index as int].0@ != before[sj].0@);
                        }
                    }
                    if old(self)@.contains_key(q) && q != k {
                        let j = old(self).lemma_key(q);
                        let sj = if j < index { j } else { j - 1 };
                        assert(after[sj].0@ == q);
                    }
                }
                assert forall|q: K::V| #[trigger] self@.contains_key(q) implies self@[q]
                    == old(self)@.remove(k)[q] by {
                    let j = self.lemma_key(q);
                    let sj = if j < index { j } else { j + 1 };
                    old(self).lemma_entry(sj);
                }
            }
        }
        r
    }

    /// Take the value under the key out.
    pub fn remove(&mut self, key: &K) -> (r: Option<V>)
        requires
            old(self).wf(),
        ensures
            final(self).wf(),
            final(self)@ == old(self)@.remove(key@),
            match r {
                Some(v) => old(self)@.contains_key(key@) && v == old(self)@[key@],
                None => !old(self)@.contains_key(key@),
            },
    {
        match self.find(key) {
            Some(i) => Some(self.remove_at(i).1),
            None => {
                assert(self@ =~= old(self)@.remove(key@));
                None
            },
        }
    }

    /// Keep only the entries whose value satisfies the predicate that `keep` computes.
    pub fn retain<F: Fn(&V) -> bool>(&mut self, keep: F, p: Ghost<spec_fn(V) -> bool>)
        requires
            old(self).wf(),
            forall|v: &V| #[trigger] call_requires(keep, (v,)),
            forall|v: &V, b: bool| #[trigger] call_ensures(keep, (v,), b) ==> b == p@(*v),
        ensures
            final(self).wf(),
            final(self)@ == where_value(old(self)@, p@),
    {
        let ghost start = old(self)@;
        let mut i: usize = 0;
        while i < self.entries.len()
            invariant
                self.wf(),
                i <= self.entries@.len(),
                forall|v: &V| #[trigger] call_requires(keep, (v,)),
                forall|v: &V, b: bool| #[trigger] call_ensures(keep, (v,), b) ==> b == p@(*v),
                forall|j: int| 0 <= j < i ==> p@((#[trigger] self.entries@[j]).1),
                forall|q: K::V| #[trigger] self@.contains_key(q) ==> start.contains_key(q) && start[q]
                    == self@[q],
                forall|q: K::V| #[trigger] start.contains_key(q) && p@(start[q]) ==> self@.contains_key(q),
            decreases self.entries@.len() - i,
        {
            if keep(&self.entries[i].1) {
                i += 1;
            } else {
                proof {
                    self.lemma_entry(i as int);
                }
                let _ = self.remove_at(i);
            }
        }
        proof {
            assert(self@ =~= where_value(start, p@)) by {
                assert forall|q: K::V| self@.contains_key(q) == where_value(start, p@).contains_key(q) by {
                    if self@.contains_key(q) {
                        let j = self.lemma_key(q);
                        assert(p@(self.entries@[j].1));
                    }
                }
            }
        }
    }
}

} // verus!
