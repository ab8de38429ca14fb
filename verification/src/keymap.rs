//! An association-list map with unique keys, used for every keyed table of
//! the client (statuses by game id, contexts by checksum, sessions by game).

use vstd::prelude::*;

verus! {

/// A key that can be compared and copied with a known meaning.
pub trait MapKey: View + Sized {
    fn same_key(&self, other: &Self) -> (r: bool)
        ensures
            r == (self@ == other@),
    ;

    fn copy_key(&self) -> (r: Self)
        ensures
            r@ == self@,
    ;
}

impl MapKey for String {
    fn same_key(&self, other: &Self) -> (r: bool) {
        *self == *other
    }

    fn copy_key(&self) -> (r: Self) {
        self.clone()
    }
}

/// A finite map stored as a vector of entries whose keys are pairwise distinct.
pub struct AssocMap<K: MapKey, V> {
    entries: Vec<(K, V)>,
}

impl<K: MapKey, V> AssocMap<K, V> {
    pub closed spec fn key_at(&self, i: int) -> K::V {
        self.entries@[i].0@
    }

    closed spec fn distinct(s: Seq<(K, V)>) -> bool {
        forall|i: int, j: int|
            0 <= i < j < s.len() ==> #[trigger] s[i].0@ != #[trigger] s[j].0@
    }

    #[verifier::type_invariant]
    closed spec fn keys_distinct(&self) -> bool {
        Self::distinct(self.entries@)
    }

    /// The keys in storage order.
    pub closed spec fn keys_seq(&self) -> Seq<K::V> {
        Seq::new(self.entries@.len(), |i: int| self.key_at(i))
    }

    closed spec fn has(&self, k: K::V) -> bool {
        exists|i: int| 0 <= i < self.entries@.len() && #[trigger] self.key_at(i) == k
    }

    closed spec fn index_of(&self, k: K::V) -> int {
        choose|i: int| 0 <= i < self.entries@.len() && #[trigger] self.key_at(i) == k
    }

    pub closed spec fn view(&self) -> Map<K::V, V> {
        Map::new(|k: K::V| self.has(k), |k: K::V| self.entries@[self.index_of(k)].1)
    }

    proof fn lemma_index(&self, i: int)
        requires
            self.keys_distinct(),
            0 <= i < self.entries@.len(),
        ensures
            self.view().contains_key(self.key_at(i)),
            self.view()[self.key_at(i)] == self.entries@[i].1,
            self.index_of(self.key_at(i)) == i,
    {
        let k = self.key_at(i);
        assert(self.has(k));
        let j = self.index_of(k);
        if j != i {
            if i < j {
                assert(self.key_at(i) != self.key_at(j));
            } else {
                assert(self.key_at(j) != self.key_at(i));
            }
        }
    }

    pub fn new() -> (m: Self)
        ensures
            m.view() == Map::<K::V, V>::empty(),
            m.keys_seq() == Seq::<K::V>::empty(),
    {
        let m = AssocMap { entries: Vec::new() };
        assert(m.view() =~= Map::<K::V, V>::empty());
        assert(m.keys_seq() =~= Seq::<K::V>::empty());
        m
    }

    /// Number of entries; also tells the caller how the key list relates to the map.
    pub fn len(&self) -> (n: usize)
        ensures
            n == self.keys_seq().len(),
            n == self.view().dom().len(),
            self.view().dom().finite(),
            self.keys_seq().no_duplicates(),
            forall|k: K::V| #[trigger] self.view().contains_key(k) <==> self.keys_seq().contains(k),
    {
        proof {
            use_type_invariant(self);
            self.lemma_keys_facts();
        }
        self.entries.len()
    }

    proof fn lemma_keys_facts(&self)
        requires
            self.keys_distinct(),
        ensures
            self.keys_seq().len() == self.entries@.len(),
            self.keys_seq().no_duplicates(),
            forall|k: K::V| #[trigger] self.view().contains_key(k) <==> self.keys_seq().contains(k),
            self.view().dom() == self.keys_seq().to_set(),
            self.view().dom().finite(),
            self.view().dom().len() == self.entries@.len(),
    {
        let ks = self.keys_seq();
        assert forall|i: int, j: int| 0 <= i < ks.len() && 0 <= j < ks.len() && i != j implies ks[i]
            != ks[j] by {
            if i < j {
                assert(self.key_at(i) != self.key_at(j));
            } else {
                assert(self.key_at(j) != self.key_at(i));
            }
        }
        assert forall|k: K::V| #[trigger] self.view().contains_key(k) <==> ks.contains(k) by {
            if self.view().contains_key(k) {
                let i = choose|i: int| 0 <= i < self.entries@.len() && #[trigger] self.key_at(i) == k;
                assert(ks[i] == k);
            }
            if ks.contains(k) {
                let i = choose|i: int| 0 <= i < ks.len() && ks[i] == k;
                assert(self.key_at(i) == k);
            }
        }
        assert(self.view().dom() =~= ks.to_set());
        ks.unique_seq_to_set();
    }

    /// The key stored at position `i`.
    pub fn key_at_index(&self, i: usize) -> (k: &K)
        requires
            i < self.keys_seq().len(),
        ensures
            k@ == self.keys_seq()[i as int],
            self.view().contains_key(k@),
    {
        proof {
            use_type_invariant(self);
            self.lemma_index(i as int);
        }
        &self.entries[i].0
    }

    /// The value stored at position `i`.
    pub fn value_at_index(&self, i: usize) -> (v: &V)
        requires
            i < self.keys_seq().len(),
        ensures
            self.view().contains_key(self.keys_seq()[i as int]),
            *v == self.view()[self.keys_seq()[i as int]],
    {
        proof {
            use_type_invariant(self);
            self.lemma_index(i as int);
        }
        &self.entries[i].1
    }

    fn find(&self, k: &K) -> (r: Option<usize>)
        ensures
            match r {
                Some(i) => i < self.entries@.len() && self.key_at(i as int) == k@,
                None => !self.view().contains_key(k@),
            },
    {
        let mut i: usize = 0;
        while i < self.entries.len()
            invariant
                i <= self.entries@.len(),
                forall|j: int| 0 <= j < i ==> self.key_at(j) != k@,
            decreases self.entries@.len() - i,
        {
            if self.entries[i].0.same_key(k) {
                return Some(i);
            }
            i = i + 1;
        }
        None
    }

    pub fn contains_key(&self, k: &K) -> (r: bool)
        ensures
            r == self.view().contains_key(k@),
    {
        proof {
            use_type_invariant(self);
        }
        match self.find(k) {
            Some(i) => {
                proof {
                    self.lemma_index(i as int);
                }
                true
            },
            None => false,
        }
    }

    pub fn get(&self, k: &K) -> (r: Option<&V>)
        ensures
            match r {
                Some(v) => self.view().contains_key(k@) && *v == self.view()[k@],
                None => !self.view().contains_key(k@),
            },
    {
        proof {
            use_type_invariant(self);
        }
        match self.find(k) {
            Some(i) => {
                proof {
                    self.lemma_index(i as int);
                }
                Some(&self.entries[i].1)
            },
            None => None,
        }
    }

    /// Inserts or overwrites the value for `k`; a new key goes to the end.
    pub fn insert(&mut self, k: K, v: V)
        ensures
            final(self).view() == old(self).view().insert(k@, v),
            old(self).view().contains_key(k@) ==> final(self).keys_seq() == old(self).keys_seq(),
            !old(self).view().contains_key(k@) ==> final(self).keys_seq() == old(self).keys_seq().push(k@),
    {
        proof {
            use_type_invariant(&*self);
        }
        let ghost old_self = *self;
        let ghost mut pos: int = old_self.entries@.len() as int;
        match self.find(&k) {
            Some(i) => {
                proof {
                    pos = i as int;
                }
                proof {
                    old_self.lemma_index(i as int);
                }
                let mut entries = Vec::new();
                std::mem::swap(&mut entries, &mut self.entries);
                entries.set(i, (k, v));
                proof {
                    assert forall|a: int, b: int| 0 <= a < b < entries@.len() implies #[trigger] entries@[a].0@
                        != #[trigger] entries@[b].0@ by {
                        assert(old_self.key_at(a) != old_self.key_at(b));
                    }
                }
                self.entries = entries;
                proof {
                    assert(forall|j: int| 0 <= j < self.entries@.len() ==> self.key_at(j) == old_self.key_at(j));
                    assert(self.keys_seq() =~= old_self.keys_seq());
                }
            },
            None => {
                let mut entries = Vec::new();
                std::mem::swap(&mut entries, &mut self.entries);
                entries.push((k, v));
                proof {
                    assert forall|a: int, b: int| 0 <= a < b < entries@.len() implies #[trigger] entries@[a].0@
                        != #[trigger] entries@[b].0@ by {
                        if b < old_self.entries@.len() {
                            assert(old_self.key_at(a) != old_self.key_at(b));
                        } else {
                            assert(old_self.key_at(a) == entries@[a].0@);
                        }
                    }
                }
                self.entries = entries;
                proof {
                    assert(forall|j: int| 0 <= j < old_self.entries@.len() ==> self.key_at(j) == old_self.key_at(j));
                    assert(self.keys_seq() =~= old_self.keys_seq().push(k@));
                }
            },
        }
        proof {
            use_type_invariant(&*self);
            assert forall|key: K::V| #[trigger] self.view().contains_key(key) <==> old_self.view().insert(k@, v).contains_key(key) by {
                if self.view().contains_key(key) {
                    let j = choose|j: int| 0 <= j < self.entries@.len() && #[trigger] self.key_at(j) == key;
                    if key != k@ {
                        assert(old_self.key_at(j) == key);
                    }
                }
                if old_self.view().contains_key(key) && key != k@ {
                    let j = choose|j: int| 0 <= j < old_self.entries@.len() && #[trigger] old_self.key_at(j) == key;
                    assert(self.key_at(j) == key);
                }
                if key == k@ {
                    assert(self.key_at(pos) == k@);
                }
            }
            assert forall|key: K::V| #[trigger] self.view().contains_key(key) implies self.view()[key] == old_self.view().insert(k@, v)[key] by {
                let j = choose|j: int| 0 <= j < self.entries@.len() && #[trigger] self.key_at(j) == key;
                self.lemma_index(j);
                if key != k@ {
                    old_self.lemma_index(j);
                }
            }
            assert(self.view() =~= old_self.view().insert(k@, v));
        }
    }

    /// Removes `k` and hands back its value, if it was present.
    pub fn remove(&mut self, k: &K) -> (r: Option<V>)
        ensures
            final(self).view() == old(self).view().remove(k@),
            match r {
                Some(v) => old(self).view().contains_key(k@) && v == old(self).view()[k@],
                None => !old(self).view().contains_key(k@),
            },
    {
        proof {
            use_type_invariant(&*self);
        }
        let ghost old_self = *self;
        match self.find(k) {
            Some(i) => {
                proof {
                    old_self.lemma_index(i as int);
                }
                let mut entries = Vec::new();
                std::mem::swap(&mut entries, &mut self.entries);
                let (_key, v) = entries.remove(i);
                proof {
                    assert forall|a: int, b: int| 0 <= a < b < entries@.len() implies #[trigger] entries@[a].0@
                        != #[trigger] entries@[b].0@ by {
                        let a2 = if a < i { a } else { a + 1 };
                        let b2 = if b < i { b } else { b + 1 };
                        assert(old_self.key_at(a2) != old_self.key_at(b2));
                    }
                }
                self.entries = entries;
                proof {
                    use_type_invariant(&*self);
                    assert forall|j: int| 0 <= j < self.entries@.len() implies #[trigger] self.key_at(j)
                        == (if j < i { old_self.key_at(j) } else { old_self.key_at(j + 1) }) by {}
                    assert forall|key: K::V| #[trigger] self.view().contains_key(key) <==> old_self.view().remove(k@).contains_key(key) by {
                        if self.view().contains_key(key) {
                            let j = choose|j: int| 0 <= j < self.entries@.len() && #[trigger] self.key_at(j) == key;
                            if j < i {
                                assert(old_self.key_at(j) == key);
                                assert(old_self.key_at(j) != old_self.key_at(i as int));
                            } else {
                                assert(old_self.key_at(j + 1) == key);
                                assert(old_self.key_at(i as int) != old_self.key_at(j + 1));
                            }
                        }
                        if old_self.view().contains_key(key) && key != k@ {
                            let j = choose|j: int| 0 <= j < old_self.entries@.len() && #[trigger] old_self.key_at(j) == key;
                            if j < i {
                                assert(self.key_at(j) == key);
                            } else {
                                assert(j != i);
                                assert(self.key_at(j - 1) == key);
                            }
                        }
                    }
                    assert forall|key: K::V| #[trigger] self.view().contains_key(key) implies self.view()[key] == old_self.view()[key] by {
                        let j = choose|j: int| 0 <= j < self.entries@.len() && #[trigger] self.key_at(j) == key;
                        self.lemma_index(j);
                        if j < i {
                            old_self.lemma_index(j);
                        } else {
                            old_self.lemma_index(j + 1);
                        }
                    }
                    assert(self.view() =~= old_self.view().remove(k@));
                }
                Some(v)
            },
            None => {
                proof {
                    assert(self.view() =~= old_self.view().remove(k@));
                }
                None
            },
        }
    }
}

impl<K: MapKey, V: Copy> AssocMap<K, V> {
    /// An independent copy with the same entries in the same order.
    pub fn copy_map(&self) -> (r: Self)
        ensures
            r.view() == self.view(),
            r.keys_seq() == self.keys_seq(),
    {
        proof {
            use_type_invariant(self);
        }
        let mut out: Vec<(K, V)> = Vec::new();
        let mut i: usize = 0;
        while i < self.entries.len()
            invariant
                i <= self.entries@.len(),
                out@.len() == i,
                forall|j: int| 0 <= j < i ==> (#[trigger] out@[j]).0@ == self.entries@[j].0@ && out@[j].1 == self.entries@[j].1,
            decreases self.entries@.len() - i,
        {
            let k = self.entries[i].0.copy_key();
            let v = self.entries[i].1;
            out.push((k, v));
            i = i + 1;
        }
        proof {
            assert forall|a: int, b: int| 0 <= a < b < out@.len() implies #[trigger] out@[a].0@
                != #[trigger] out@[b].0@ by {
                assert(self.key_at(a) != self.key_at(b));
            }
        }
        let r = AssocMap { entries: out };
        proof {
            assert forall|j: int| 0 <= j < r.entries@.len() implies #[trigger] r.key_at(j) == self.key_at(j) by {}
            assert(r.keys_seq() =~= self.keys_seq());
            assert forall|key: K::V| #[trigger] r.view().contains_key(key) <==> self.view().contains_key(key) by {
                if r.view().contains_key(key) {
                    let j = choose|j: int| 0 <= j < r.entries@.len() && #[trigger] r.key_at(j) == key;
                    assert(self.key_at(j) == key);
                }
                if self.view().contains_key(key) {
                    let j = choose|j: int| 0 <= j < self.entries@.len() && #[trigger] self.key_at(j) == key;
                    assert(r.key_at(j) == key);
                }
            }
            assert forall|key: K::V| #[trigger] r.view().contains_key(key) implies r.view()[key] == self.view()[key] by {
                let j = choose|j: int| 0 <= j < r.entries@.len() && #[trigger] r.key_at(j) == key;
                r.lemma_index(j);
                self.lemma_index(j);
            }
            assert(r.view() =~= self.view());
        }
        r
    }
}

} // verus!
