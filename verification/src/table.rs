//! A small keyed table: at most one value per key, looked up by exact key.

use vstd::prelude::*;

verus! {

/// A key of a [`Table`]. Two keys are the same key exactly when their
/// identities are equal.
pub trait Key: Sized {
    /// The mathematical identity of a key.
    type Id;

    /// The identity of this key.
    spec fn id(&self) -> Self::Id;

    /// Whether two keys have the same identity.
    fn same(&self, other: &Self) -> (r: bool)
        ensures
            r == (self.id() == other.id()),
    ;

    /// A second key with the same identity.
    fn duplicate(&self) -> (r: Self)
        ensures
            r.id() == self.id(),
    ;
}

impl Key for String {
    type Id = Seq<char>;

    open spec fn id(&self) -> Seq<char> {
        self@
    }

    fn same(&self, other: &Self) -> (r: bool) {
        *self == *other
    }

    fn duplicate(&self) -> (r: Self) {
        self.clone()
    }
}

/// A table from keys to values, viewed as a `Map` from key identities to values.
pub struct Table<K: Key, T> {
    entries: Vec<(K, T)>,
}

impl<K: Key, T> View for Table<K, T> {
    type V = Map<K::Id, T>;

    closed spec fn view(&self) -> Map<K::Id, T> {
        Map::new(
            |id: K::Id| self.holds(id),
            |id: K::Id| self.entries@[self.slot(id)].1,
        )
    }
}

impl<K: Key, T> Table<K, T> {
    /// Some entry has the identity `id`.
    pub closed spec fn holds(&self, id: K::Id) -> bool {
        exists|i: int| 0 <= i < self.entries@.len() && #[trigger] self.entries@[i].0.id() == id
    }

    /// The position of an entry with the identity `id`, where there is one.
    pub closed spec fn slot(&self, id: K::Id) -> int {
        choose|i: int| 0 <= i < self.entries@.len() && #[trigger] self.entries@[i].0.id() == id
    }

    /// No two entries share an identity.
    pub closed spec fn wf(&self) -> bool {
        forall|i: int, j: int|
            0 <= i < j < self.entries@.len() ==> #[trigger] self.entries@[i].0.id()
                != #[trigger] self.entries@[j].0.id()
    }

    /// In a well-formed table the entry at position `i` is what the view
    /// gives for its identity.
    proof fn lemma_entry(&self, i: int)
        requires
            self.wf(),
            0 <= i < self.entries@.len(),
        ensures
            self@.contains_key(self.entries@[i].0.id()),
            self@[self.entries@[i].0.id()] == self.entries@[i].1,
            self.slot(self.entries@[i].0.id()) == i,
    {
        let id = self.entries@[i].0.id();
        let j = self.slot(id);
        assert(self.holds(id));
        assert(0 <= j < self.entries@.len() && self.entries@[j].0.id() == id);
        if j < i {
            assert(self.entries@[j].0.id() != self.entries@[i].0.id());
        }
        if i < j {
            assert(self.entries@[i].0.id() != self.entries@[j].0.id());
        }
    }

    /// The empty table.
    pub fn new() -> (t: Self)
        ensures
            t.wf(),
            t@ == Map::<K::Id, T>::empty(),
    {
        let t = Table { entries: Vec::new() };
        assert(t@ =~= Map::<K::Id, T>::empty());
        t
    }

    /// The position of the entry for `key`, if there is one.
    fn find(&self, key: &K) -> (r: Option<usize>)
        ensures
            match r {
                Some(i) => i < self.entries@.len() && self.entries@[i as int].0.id() == key.id(),
                None => !self.holds(key.id()),
            },
    {
        let mut i: usize = 0;
        while i < self.entries.len()
            invariant
                i <= self.entries@.len(),
                forall|j: int| 0 <= j < i ==> #[trigger] self.entries@[j].0.id() != key.id(),
            decreases self.entries@.len() - i,
        {
            if self.entries[i].0.same(key) {
                return Some(i);
            }
            i += 1;
        }
        None
    }

    /// The value stored for `key`, if there is one.
    pub fn get(&self, key: &K) -> (r: Option<&T>)
        requires
            self.wf(),
        ensures
            match r {
                Some(v) => self@.contains_key(key.id()) && *v == self@[key.id()],
                None => !self@.contains_key(key.id()),
            },
    {
        match self.find(key) {
            Some(i) => {
                proof {
                    self.lemma_entry(i as int);
                }
                Some(&self.entries[i].1)
            },
            None => None,
        }
    }

    /// Stores `value` for `key`, in place of what was stored for it before.
    pub fn insert(&mut self, key: K, value: T)
        requires
            old(self).wf(),
        ensures
            final(self).wf(),
            final(self)@ == old(self)@.insert(key.id(), value),
    {
        let ghost id = key.id();
        let ghost pos: int;
        match self.find(&key) {
            Some(i) => {
                proof {
                    pos = i as int;
                }
                self.entries.set(i, (key, value));
            },
            None => {
                proof {
                    pos = self.entries@.len() as int;
                }
                self.entries.push((key, value));
            },
        }
        proof {
            let before = old(self).entries@;
            let after = self.entries@;
            assert(after[pos].0.id() == id && after[pos].1 == value);
            assert forall|i: int| 0 <= i < before.len() && i != pos implies after[i] == before[i]
                && before[i].0.id() != id by {
                if old(self).holds(id) {
                    if i < pos {
                        assert(before[i].0.id() != before[pos].0.id());
                    } else {
                        assert(before[pos].0.id() != before[i].0.id());
                    }
                }
            }
            assert(self.wf()) by {
                assert forall|i: int, j: int| 0 <= i < j < after.len() implies #[trigger] after[i].0.id()
                    != #[trigger] after[j].0.id() by {
                    if i != pos && j != pos {
                        assert(before[i].0.id() != before[j].0.id());
                    }
                }
            }
            self.lemma_entry(pos);
            assert forall|k: K::Id|
                #![trigger self@.contains_key(k)]
                #![trigger old(self)@.contains_key(k)]
                k != id implies (self@.contains_key(k) <==> old(self)@.contains_key(k))
                && (self@.contains_key(k) ==> self@[k] == old(self)@[k]) by {
                if self.holds(k) {
                    let i = self.slot(k);
                    assert(before[i].0.id() == k);
                    assert(old(self).holds(k));
                    self.lemma_entry(i);
                    old(self).lemma_entry(i);
                }
                if old(self).holds(k) {
                    let i = old(self).slot(k);
                    assert(after[i].0.id() == k);
                    assert(self.holds(k));
                }
            }
            assert(self@ =~= old(self)@.insert(id, value));
        }
    }

    /// Removes what is stored for `key`, if anything is.
    pub fn remove(&mut self, key: &K)
        requires
            old(self).wf(),
        ensures
            final(self).wf(),
            final(self)@ == old(self)@.remove(key.id()),
    {
        let ghost id = key.id();
        match self.find(key) {
            Some(i) => {
                let _ = self.entries.remove(i);
                proof {
                    let before = old(self).entries@;
                    let after = self.entries@;
                    let pos = i as int;
                    assert forall|j: int| 0 <= j < after.len() implies after[j] == before[if j
                        < pos {
                        j
                    } else {
                        j + 1
                    }] by {}
                    assert(self.wf()) by {
                        assert forall|a: int, b: int| 0 <= a < b < after.len() implies #[trigger] after[a].0.id()
                            != #[trigger] after[b].0.id() by {
                            let a0 = if a < pos { a } else { a + 1 };
                            let b0 = if b < pos { b } else { b + 1 };
                            assert(before[a0].0.id() != before[b0].0.id());
                        }
                    }
                    assert(!self.holds(id)) by {
                        if self.holds(id) {
                            let j = self.slot(id);
                            let j0 = if j < pos { j } else { j + 1 };
                            if j0 < pos {
                                assert(before[j0].0.id() != before[pos].0.id());
                            } else {
                                assert(before[pos].0.id() != before[j0].0.id());
                            }
                        }
                    }
                    assert forall|k: K::Id|
                        #![trigger self@.contains_key(k)]
                        #![trigger old(self)@.contains_key(k)]
                        k != id implies (self@.contains_key(k) <==> old(self)@.contains_key(k))
                        && (self@.contains_key(k) ==> self@[k] == old(self)@[k]) by {
                        if self.holds(k) {
                            let j = self.slot(k);
                            let j0 = if j < pos { j } else { j + 1 };
                            assert(before[j0].0.id() == k);
                            assert(old(self).holds(k));
                            self.lemma_entry(j);
                            old(self).lemma_entry(j0);
                        }
                        if old(self).holds(k) {
                            let j0 = old(self).slot(k);
                            let j = if j0 < pos { j0 } else { j0 - 1 };
                            assert(after[j].0.id() == k);
                            assert(self.holds(k));
                        }
                    }
                    assert(self@ =~= old(self)@.remove(id));
                }
            },
            None => {
                proof {
                    assert(self@ =~= old(self)@.remove(id));
                }
            },
        }
    }
}

impl<K: Key, T: Copy> Table<K, T> {
    /// The entries, each once: a copy of every key with its value.
    pub fn pairs(&self) -> (r: Vec<(K, T)>)
        requires
            self.wf(),
        ensures
            forall|i: int, j: int|
                0 <= i < j < r@.len() ==> (#[trigger] r@[i]).0.id() != (#[trigger] r@[j]).0.id(),
            forall|i: int|
                0 <= i < r@.len() ==> self@.contains_key((#[trigger] r@[i]).0.id())
                    && self@[r@[i].0.id()] == r@[i].1,
            forall|id: K::Id|
                self@.contains_key(id) ==> exists|i: int|
                    0 <= i < r@.len() && (#[trigger] r@[i]).0.id() == id,
    {
        let mut r: Vec<(K, T)> = Vec::new();
        let mut i: usize = 0;
        while i < self.entries.len()
            invariant
                i <= self.entries@.len(),
                r@.len() == i,
                forall|j: int|
                    0 <= j < i ==> (#[trigger] r@[j]).0.id() == self.entries@[j].0.id() && r@[j].1
                        == self.entries@[j].1,
            decreases self.entries@.len() - i,
        {
            let key = self.entries[i].0.duplicate();
            let value = self.entries[i].1;
            r.push((key, value));
            i += 1;
        }
        proof {
            assert forall|a: int, b: int| 0 <= a < b < r@.len() implies (#[trigger] r@[a]).0.id() != (
            #[trigger] r@[b]).0.id() by {
                assert(self.entries@[a].0.id() != self.entries@[b].0.id());
            }
            assert forall|j: int| 0 <= j < r@.len() implies self@.contains_key(
                (#[trigger] r@[j]).0.id(),
            ) && self@[r@[j].0.id()] == r@[j].1 by {
                self.lemma_entry(j);
            }
            assert forall|id: K::Id| self@.contains_key(id) implies exists|j: int|
                0 <= j < r@.len() && (#[trigger] r@[j]).0.id() == id by {
                let j = self.slot(id);
                assert(self.holds(id));
                assert(r@[j].0.id() == id);
            }
        }
        r
    }

    /// A second table with the same contents.
    pub fn copy(&self) -> (r: Self)
        requires
            self.wf(),
        ensures
            r.wf(),
            r@ == self@,
    {
        let r = Table { entries: self.pairs() };
        proof {
            assert forall|id: K::Id|
                #![trigger r@.contains_key(id)]
                #![trigger self@.contains_key(id)]
                (r@.contains_key(id) <==> self@.contains_key(id)) && (r@.contains_key(id) ==> r@[id]
                    == self@[id]) by {
                if r.holds(id) {
                    r.lemma_entry(r.slot(id));
                }
                if self@.contains_key(id) {
                    let j = choose|j: int| 0 <= j < r.entries@.len() && (#[trigger] r.entries@[j]).0.id() == id;
                    r.lemma_entry(j);
                }
            }
            assert(r@ =~= self@);
        }
        r
    }
}

} // verus!
