//! A finite map kept as a vector of entries with distinct keys.

use vstd::prelude::*;

use crate::binding::Binding;

verus! {

/// A key that can be compared and copied by its view.
pub trait TableKey: View + Sized {
    fn same_key(&self, other: &Self) -> (r: bool)
        ensures
            r == (self@ == other@),
    ;

    fn copy_key(&self) -> (r: Self)
        ensures
            r@ == self@,
    ;
}

impl TableKey for Binding {
    fn same_key(&self, other: &Binding) -> (r: bool) {
        self.same(other)
    }

    fn copy_key(&self) -> (r: Binding) {
        self.clone()
    }
}

/// Entries in insertion order; `contents` is the map they stand for.
pub struct Table<K: TableKey, V> {
    entries: Vec<(K, V)>,
    contents: Ghost<Map<K::V, V>>,
}

impl<K: TableKey, V> Table<K, V> {
    /// The map held.
    pub closed spec fn view(&self) -> Map<K::V, V> {
        self.contents@
    }

    /// Keys are distinct and the entries are exactly the map's.
    pub closed spec fn wf(&self) -> bool {
        &&& self.contents@.dom().finite()
        &&& self.contents@.dom().len() == self.entries@.len()
        &&& forall|i: int, j: int|
            0 <= i < j < self.entries@.len() ==> self.entries@[i].0@ != self.entries@[j].0@
        &&& forall|i: int|
            0 <= i < self.entries@.len() ==> {
                &&& #[trigger] self.contents@.contains_key(self.entries@[i].0@)
                &&& self.contents@[self.entries@[i].0@] == self.entries@[i].1
            }
        &&& forall|k: K::V|
            #[trigger] self.contents@.contains_key(k) ==> exists|i: int|
                0 <= i < self.entries@.len() && self.entries@[i].0@ == k
    }

    pub fn new() -> (r: Self)
        ensures
            r.wf(),
            r.view() == Map::<K::V, V>::empty(),
    {
        Table { entries: Vec::new(), contents: Ghost(Map::empty()) }
    }

    /// Position of the entry for `k`, if any.
    fn position(&self, k: &K) -> (r: Option<usize>)
        requires
            self.wf(),
        ensures
            match r {
                Some(i) => i < self.entries@.len() && self.entries@[i as int].0@ == k@,
                None => !self.view().contains_key(k@),
            },
    {
        let mut i: usize = 0;
        while i < self.entries.len()
            invariant
                self.wf(),
                i <= self.entries@.len(),
                forall|j: int| 0 <= j < i ==> self.entries@[j].0@ != k@,
            decreases self.entries@.len() - i,
        {
            if self.entries[i].0.same_key(k) {
                return Some(i);
            }
            i += 1;
        }
        None
    }

    /// Whether `k` has an entry.
    pub fn contains(&self, k: &K) -> (r: bool)
        requires
            self.wf(),
        ensures
            r == self.view().contains_key(k@),
    {
        self.position(k).is_some()
    }

    /// The value stored under `k`.
    pub fn get(&self, k: &K) -> (r: Option<&V>)
        requires
            self.wf(),
        ensures
            r.is_some() == self.view().contains_key(k@),
            r matches Some(v) ==> *v == self.view()[k@],
    {
        match self.position(k) {
            Some(i) => {
                assert(self.contents@.contains_key(self.entries@[i as int].0@));
                Some(&self.entries[i].1)
            },
            None => None,
        }
    }

    /// Stores `v` under `k`, replacing an earlier value.
    pub fn insert(&mut self, k: K, v: V)
        requires
            old(self).wf(),
        ensures
            final(self).wf(),
            final(self).view() == old(self).view().insert(k@, v),
    {
        let ghost kv = k@;
        let ghost before = self.entries@;
        let ghost m = self.contents@;
        let ghost m2 = m.insert(kv, v);
        match self.position(&k) {
            Some(i) => {
                self.entries.set(i, (k, v));
                self.contents = Ghost(m2);
                assert forall|x: int| 0 <= x < before.len() implies #[trigger] self.entries@[x].0@
                    == before[x].0@ by {}
                assert forall|x: int| 0 <= x < self.entries@.len() && x != i implies before[x].0@
                    != kv by {
                    assert(before[x].0@ != before[i as int].0@);
                }
                assert forall|key: K::V| #[trigger] m2.contains_key(key) implies exists|j: int|
                    0 <= j < self.entries@.len() && self.entries@[j].0@ == key by {
                    if key == kv {
                        assert(self.entries@[i as int].0@ == key);
                    } else {
                        assert(m.contains_key(key));
                        let j = choose|j: int| 0 <= j < before.len() && before[j].0@ == key;
                        assert(self.entries@[j].0@ == key);
                    }
                }
                assert forall|x: int| 0 <= x < self.entries@.len() implies {
                    &&& #[trigger] m2.contains_key(self.entries@[x].0@)
                    &&& m2[self.entries@[x].0@] == self.entries@[x].1
                } by {
                    if x != i {
                        assert(m.contains_key(before[x].0@));
                    }
                }
            },
            None => {
                self.entries.push((k, v));
                self.contents = Ghost(m2);
                assert forall|x: int| 0 <= x < before.len() implies before[x].0@ != kv by {
                    assert(m.contains_key(before[x].0@));
                }
                assert forall|key: K::V| #[trigger] m2.contains_key(key) implies exists|j: int|
                    0 <= j < self.entries@.len() && self.entries@[j].0@ == key by {
                    if key == kv {
                        assert(self.entries@[before.len() as int].0@ == key);
                    } else {
                        assert(m.contains_key(key));
                        let j = choose|j: int| 0 <= j < before.len() && before[j].0@ == key;
                        assert(self.entries@[j].0@ == key);
                    }
                }
                assert forall|x: int| 0 <= x < self.entries@.len() implies {
                    &&& #[trigger] m2.contains_key(self.entries@[x].0@)
                    &&& m2[self.entries@[x].0@] == self.entries@[x].1
                } by {
                    if x < before.len() {
                        assert(m.contains_key(before[x].0@));
                    }
                }
            },
        }
    }

    /// Drops the entry for `k`, if any.
    pub fn remove(&mut self, k: &K)
        requires
            old(self).wf(),
        ensures
            final(self).wf(),
            final(self).view() == old(self).view().remove(k@),
    {
        let ghost before = self.entries@;
        let ghost m = self.contents@;
        let ghost m2 = m.remove(k@);
        match self.position(k) {
            Some(i) => {
                self.entries.remove(i);
                self.contents = Ghost(m2);
                assert forall|x: int| 0 <= x < self.entries@.len() implies #[trigger] self.entries@[x]
                    == if x < i { before[x] } else { before[x + 1] } by {}
                assert forall|x: int| 0 <= x < before.len() && x != i implies before[x].0@ != k@ by {
                    assert(before[x].0@ != before[i as int].0@);
                }
                assert forall|key: K::V| #[trigger] m2.contains_key(key) implies exists|j: int|
                    0 <= j < self.entries@.len() && self.entries@[j].0@ == key by {
                    assert(m.contains_key(key));
                    let j = choose|j: int| 0 <= j < before.len() && before[j].0@ == key;
                    if j < i {
                        assert(self.entries@[j].0@ == key);
                    } else {
                        assert(self.entries@[j - 1].0@ == key);
                    }
                }
                assert forall|x: int| 0 <= x < self.entries@.len() implies {
                    &&& #[trigger] m2.contains_key(self.entries@[x].0@)
                    &&& m2[self.entries@[x].0@] == self.entries@[x].1
                } by {
                    if x < i {
                        assert(m.contains_key(before[x].0@));
                    } else {
                        assert(m.contains_key(before[x + 1].0@));
                    }
                }
                assert forall|x: int, y: int| 0 <= x < y < self.entries@.len() implies
                    self.entries@[x].0@ != self.entries@[y].0@ by {
                    let bx = if x < i { x } else { x + 1 };
                    let by_ = if y < i { y } else { y + 1 };
                    assert(before[bx].0@ != before[by_].0@);
                }
            },
            None => {
                assert(m2 =~= m);
                self.contents = Ghost(m2);
            },
        }
    }
}

} // verus!
