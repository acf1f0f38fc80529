//! A table keyed by names: entries in the order they were added, no name
//! twice, viewed as a finite map from names to values.

use vstd::prelude::*;
use vstd::string::*;

verus! {

/// Entries keyed by distinct names, kept in the order of their addition.
pub struct Table<V> {
    entries: Vec<(String, V)>,
    model: Ghost<Map<Seq<char>, V>>,
}

impl<V> Table<V> {
    /// The map from names to values.
    pub closed spec fn view(&self) -> Map<Seq<char>, V> {
        self.model@
    }

    /// The names, in table order.
    pub closed spec fn keys(&self) -> Seq<Seq<char>> {
        Seq::new(self.entries@.len(), |i: int| self.entries@[i].0@)
    }

    /// The table's invariant: names are distinct and the map holds exactly
    /// the entries.
    pub closed spec fn wf(&self) -> bool {
        &&& forall|i: int, j: int|
            0 <= i < j < self.entries@.len() ==> #[trigger] self.entries@[i].0@ != #[trigger] self.entries@[j].0@
        &&& forall|i: int|
            0 <= i < self.entries@.len() ==> #[trigger] self.model@.contains_key(self.entries@[i].0@)
                && self.model@[self.entries@[i].0@] == self.entries@[i].1
        &&& forall|k: Seq<char>|
            #[trigger] self.model@.contains_key(k) ==> exists|i: int|
                0 <= i < self.entries@.len() && #[trigger] self.entries@[i].0@ == k
    }

    /// The names in order are distinct and are exactly the map's keys.
    pub proof fn lemma_keys(&self)
        requires
            self.wf(),
        ensures
            self.keys().no_duplicates(),
            forall|k: Seq<char>| #[trigger] self@.contains_key(k) <==> self.keys().contains(k),
            self.keys().len() == self@.dom().len(),
            self@.dom().finite(),
    {
        let ks = self.keys();
        assert forall|k: Seq<char>| #[trigger] self@.contains_key(k) <==> ks.contains(k) by {
            if self@.contains_key(k) {
                let i = choose|i: int| 0 <= i < self.entries@.len() && #[trigger] self.entries@[i].0@ == k;
                assert(ks[i] == k);
            }
            if ks.contains(k) {
                let i = choose|i: int| 0 <= i < ks.len() && ks[i] == k;
                assert(self.model@.contains_key(self.entries@[i].0@));
            }
        }
        assert(ks.no_duplicates()) by {
            assert forall|i: int, j: int| 0 <= i < ks.len() && 0 <= j < ks.len() && i != j implies ks[i] != ks[j] by {
                if i < j {
                    assert(self.entries@[i].0@ != self.entries@[j].0@);
                } else {
                    assert(self.entries@[j].0@ != self.entries@[i].0@);
                }
            }
        }
        ks.unique_seq_to_set();
        assert(ks.to_set() =~= self@.dom());
    }

    /// An empty table.
    pub fn new() -> (t: Table<V>)
        ensures
            t.wf(),
            t@ == Map::<Seq<char>, V>::empty(),
            t.keys() == Seq::<Seq<char>>::empty(),
    {
        let t = Table { entries: Vec::new(), model: Ghost(Map::empty()) };
        assert(t.keys() =~= Seq::<Seq<char>>::empty());
        t
    }

    /// The number of entries.
    pub fn len(&self) -> (n: usize)
        requires
            self.wf(),
        ensures
            n == self.keys().len(),
            n == self@.dom().len(),
    {
        proof {
            self.lemma_keys();
        }
        self.entries.len()
    }

    /// The position of `k`, if present.
    pub fn index_of(&self, k: &str) -> (r: Option<usize>)
        requires
            self.wf(),
        ensures
            match r {
                Some(i) => i < self.keys().len() && self.keys()[i as int] == k@ && self@.contains_key(k@),
                None => !self@.contains_key(k@),
            },
    {
        let key = String::from_str(k);
        let mut i: usize = 0;
        while i < self.entries.len()
            invariant
                self.wf(),
                key@ == k@,
                i <= self.entries@.len(),
                forall|j: int| 0 <= j < i ==> #[trigger] self.entries@[j].0@ != k@,
            decreases self.entries@.len() - i,
        {
            if self.entries[i].0 == key {
                assert(self.model@.contains_key(self.entries@[i as int].0@));
                return Some(i);
            }
            i = i + 1;
        }
        proof {
            if self@.contains_key(k@) {
                let j = choose|j: int| 0 <= j < self.entries@.len() && #[trigger] self.entries@[j].0@ == k@;
                assert(false);
            }
        }
        None
    }

    /// Whether `k` is present.
    pub fn contains_key(&self, k: &str) -> (r: bool)
        requires
            self.wf(),
        ensures
            r == self@.contains_key(k@),
    {
        self.index_of(k).is_some()
    }

    /// The value of `k`, if present.
    pub fn get(&self, k: &str) -> (r: Option<&V>)
        requires
            self.wf(),
        ensures
            match r {
                Some(v) => self@.contains_key(k@) && *v == self@[k@],
                None => !self@.contains_key(k@),
            },
    {
        match self.index_of(k) {
            Some(i) => {
                assert(self.model@[self.entries@[i as int].0@] == self.entries@[i as int].1);
                Some(&self.entries[i].1)
            },
            None => None,
        }
    }

    /// The name at position `i`.
    pub fn key_at(&self, i: usize) -> (r: &String)
        requires
            self.wf(),
            i < self.keys().len(),
        ensures
            r@ == self.keys()[i as int],
    {
        &self.entries[i].0
    }

    /// The value at position `i`.
    pub fn value_at(&self, i: usize) -> (r: &V)
        requires
            self.wf(),
            i < self.keys().len(),
        ensures
            *r == self@[self.keys()[i as int]],
    {
        assert(self.model@.contains_key(self.entries@[i as int].0@));
        &self.entries[i].1
    }

    /// Sets `k` to `v`; a new name goes last, an existing one keeps its place.
    /// Returns the value that `k` had.
    pub fn insert(&mut self, k: String, v: V) -> (old_v: Option<V>)
        requires
            old(self).wf(),
        ensures
            final(self).wf(),
            final(self)@ == old(self)@.insert(k@, v),
            match old_v {
                Some(o) => old(self)@.contains_key(k@) && o == old(self)@[k@] && final(self).keys()
                    == old(self).keys(),
                None => !old(self)@.contains_key(k@) && final(self).keys() == old(self).keys().push(k@),
            },
    {
        match self.index_of(k.as_str()) {
            Some(i) => {
                let ghost ks = self.keys();
                let old_entry = self.entries.remove(i);
                self.entries.insert(i, (k, v));
                self.model = Ghost(self.model@.insert(old_entry.0@, v));
                proof {
                    assert(old(self).model@[old(self).entries@[i as int].0@] == old(self).entries@[i as int].1);
                    assert forall|a: int, b: int|
                        0 <= a < b < self.entries@.len() implies #[trigger] self.entries@[a].0@ != #[trigger] self.entries@[b].0@ by {
                        assert(self.entries@[a].0@ == old(self).entries@[a].0@);
                        assert(self.entries@[b].0@ == old(self).entries@[b].0@);
                    }
                    assert forall|a: int| 0 <= a < self.entries@.len() implies #[trigger] self.model@.contains_key(self.entries@[a].0@)
                        && self.model@[self.entries@[a].0@] == self.entries@[a].1 by {
                        if a != i {
                            assert(self.entries@[a] == old(self).entries@[a]);
                            assert(old(self).model@.contains_key(old(self).entries@[a].0@));
                            assert(old(self).entries@[a].0@ != old(self).entries@[i as int].0@);
                        }
                    }
                    assert forall|q: Seq<char>| #[trigger] self.model@.contains_key(q) implies exists|a: int|
                        0 <= a < self.entries@.len() && #[trigger] self.entries@[a].0@ == q by {
                        if q != k@ {
                            let a = choose|a: int| 0 <= a < old(self).entries@.len() && #[trigger] old(self).entries@[a].0@ == q;
                            assert(self.entries@[a] == old(self).entries@[a]);
                        } else {
                            assert(self.entries@[i as int].0@ == q);
                        }
                    }
                    assert(self.keys() =~= ks);
                }
                Some(old_entry.1)
            },
            None => {
                let ghost kv = k@;
                self.entries.push((k, v));
                self.model = Ghost(self.model@.insert(kv, v));
                proof {
                    let n = old(self).entries@.len();
                    assert forall|a: int, b: int|
                        0 <= a < b < self.entries@.len() implies #[trigger] self.entries@[a].0@ != #[trigger] self.entries@[b].0@ by {
                        if b == n {
                            assert(old(self).model@.contains_key(old(self).entries@[a].0@));
                        } else {
                            assert(self.entries@[a] == old(self).entries@[a]);
                            assert(self.entries@[b] == old(self).entries@[b]);
                        }
                    }
                    assert forall|a: int| 0 <= a < self.entries@.len() implies #[trigger] self.model@.contains_key(self.entries@[a].0@)
                        && self.model@[self.entries@[a].0@] == self.entries@[a].1 by {
                        if a < n {
                            assert(self.entries@[a] == old(self).entries@[a]);
                            assert(old(self).model@.contains_key(old(self).entries@[a].0@));
                        }
                    }
                    assert forall|q: Seq<char>| #[trigger] self.model@.contains_key(q) implies exists|a: int|
                        0 <= a < self.entries@.len() && #[trigger] self.entries@[a].0@ == q by {
                        if q != kv {
                            let a = choose|a: int| 0 <= a < old(self).entries@.len() && #[trigger] old(self).entries@[a].0@ == q;
                            assert(self.entries@[a] == old(self).entries@[a]);
                        } else {
                            assert(self.entries@[n as int].0@ == q);
                        }
                    }
                    assert(self.keys() =~= old(self).keys().push(kv));
                }
                None
            },
        }
    }

    /// Removes `k`, returning its value; the other names keep their order.
    pub fn remove(&mut self, k: &str) -> (r: Option<V>)
        requires
            old(self).wf(),
        ensures
            final(self).wf(),
            final(self)@ == old(self)@.remove(k@),
            match r {
                Some(v) => old(self)@.contains_key(k@) && v == old(self)@[k@] && exists|i: int|
                    0 <= i < old(self).keys().len() && old(self).keys()[i] == k@ && final(self).keys()
                        == old(self).keys().remove(i),
                None => !old(self)@.contains_key(k@) && final(self).keys() == old(self).keys(),
            },
    {
        match self.index_of(k) {
            Some(i) => {
                let ghost ks = self.keys();
                let e = self.entries.remove(i);
                self.model = Ghost(self.model@.remove(k@));
                proof {
                    assert(old(self).model@[old(self).entries@[i as int].0@] == old(self).entries@[i as int].1);
                    assert forall|a: int, b: int|
                        0 <= a < b < self.entries@.len() implies #[trigger] self.entries@[a].0@ != #[trigger] self.entries@[b].0@ by {
                        let oa = if a < i { a } else { a + 1 };
                        let ob = if b < i { b } else { b + 1 };
                        assert(self.entries@[a] == old(self).entries@[oa]);
                        assert(self.entries@[b] == old(self).entries@[ob]);
                    }
                    assert forall|a: int| 0 <= a < self.entries@.len() implies #[trigger] self.model@.contains_key(self.entries@[a].0@)
                        && self.model@[self.entries@[a].0@] == self.entries@[a].1 by {
                        let oa = if a < i { a } else { a + 1 };
                        assert(self.entries@[a] == old(self).entries@[oa]);
                        assert(old(self).model@.contains_key(old(self).entries@[oa].0@));
                        assert(old(self).entries@[oa].0@ != old(self).entries@[i as int].0@);
                    }
                    assert forall|q: Seq<char>| #[trigger] self.model@.contains_key(q) implies exists|a: int|
                        0 <= a < self.entries@.len() && #[trigger] self.entries@[a].0@ == q by {
                        let a = choose|a: int| 0 <= a < old(self).entries@.len() && #[trigger] old(self).entries@[a].0@ == q;
                        assert(a != i);
                        let na = if a < i { a } else { a - 1 };
                        assert(self.entries@[na] == old(self).entries@[a]);
                    }
                    assert(self.keys() =~= ks.remove(i as int));
                }
                Some(e.1)
            },
            None => {
                assert(self.model@.remove(k@) =~= self.model@);
                None
            },
        }
    }

    /// Empties the table, handing out its entries in table order.
    pub fn drain_all(&mut self) -> (r: Vec<(String, V)>)
        requires
            old(self).wf(),
        ensures
            final(self).wf(),
            final(self)@ == Map::<Seq<char>, V>::empty(),
            final(self).keys() == Seq::<Seq<char>>::empty(),
            r@.len() == old(self).keys().len(),
            forall|i: int| 0 <= i < r@.len() ==> #[trigger] r@[i].0@ == old(self).keys()[i] && r@[i].1
                == old(self)@[old(self).keys()[i]],
    {
        let mut taken: Vec<(String, V)> = Vec::new();
        std::mem::swap(&mut taken, &mut self.entries);
        self.model = Ghost(Map::empty());
        proof {
            assert(self.keys() =~= Seq::<Seq<char>>::empty());
            assert forall|i: int| 0 <= i < taken@.len() implies #[trigger] taken@[i].0@ == old(self).keys()[i]
                && taken@[i].1 == old(self)@[old(self).keys()[i]] by {
                assert(old(self).model@.contains_key(old(self).entries@[i].0@));
            }
        }
        taken
    }
}

} // verus!
