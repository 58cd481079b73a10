//! A table of values keyed by name, with at most one entry per name.

use vstd::prelude::*;
use vstd::string::*;

verus! {

/// Values keyed by name; a name occurs at most once.
#[derive(Debug)]
pub struct NamedTable<V> {
    entries: Vec<(String, V)>,
}

impl<V> NamedTable<V> {
    /// No name occurs twice.
    pub closed spec fn wf(&self) -> bool {
        forall|i: int, j: int|
            0 <= i < j < self.entries@.len() ==> #[trigger] self.entries@[i].0@
                != #[trigger] self.entries@[j].0@
    }

    closed spec fn has(&self, k: Seq<char>) -> bool {
        exists|i: int| 0 <= i < self.entries@.len() && #[trigger] self.entries@[i].0@ == k
    }

    closed spec fn index_of(&self, k: Seq<char>) -> int {
        choose|i: int| 0 <= i < self.entries@.len() && #[trigger] self.entries@[i].0@ == k
    }

    /// The contents as a map from names to values.
    pub closed spec fn map(&self) -> Map<Seq<char>, V> {
        Map::new(|k: Seq<char>| self.has(k), |k: Seq<char>| self.entries@[self.index_of(k)].1)
    }

    proof fn lemma_index_of(&self, i: int)
        requires
            self.wf(),
            0 <= i < self.entries@.len(),
        ensures
            self.has(self.entries@[i].0@),
            self.index_of(self.entries@[i].0@) == i,
    {
        let k = self.entries@[i].0@;
        assert(self.has(k));
        let j = self.index_of(k);
        if j != i {
            if j < i {
                assert(self.entries@[j].0@ != self.entries@[i].0@);
            } else {
                assert(self.entries@[i].0@ != self.entries@[j].0@);
            }
        }
    }

    pub fn new() -> (r: Self)
        ensures
            r.wf(),
            r.map() == Map::<Seq<char>, V>::empty(),
    {
        let r = Self { entries: Vec::new() };
        assert(r.map() =~= Map::<Seq<char>, V>::empty());
        r
    }

    fn find(&self, name: &String) -> (r: Option<usize>)
        requires
            self.wf(),
        ensures
            match r {
                Some(i) => i < self.entries@.len() && self.entries@[i as int].0@ == name@,
                None => !self.has(name@),
            },
    {
        let n = self.entries.len();
        for i in 0..n
            invariant
                n == self.entries@.len(),
                forall|j: int| 0 <= j < i ==> #[trigger] self.entries@[j].0@ != name@,
        {
            if self.entries[i].0 == *name {
                return Some(i);
            }
        }
        None
    }

    /// Insert or replace the value stored under `name`.
    pub fn insert(&mut self, name: String, value: V)
        requires
            old(self).wf(),
        ensures
            final(self).wf(),
            final(self).map() == old(self).map().insert(name@, value),
    {
        let ghost k = name@;
        let ghost old_map = self.map();
        match self.find(&name) {
            Some(i) => {
                proof {
                    self.lemma_index_of(i as int);
                }
                self.entries.set(i, (name, value));
                assert forall|a: int, b: int|
                    0 <= a < b < self.entries@.len() implies #[trigger] self.entries@[a].0@
                    != #[trigger] self.entries@[b].0@ by {
                    assert(old(self).entries@[a].0@ != old(self).entries@[b].0@);
                }
                assert forall|q: Seq<char>| #[trigger] self.has(q) == old(self).has(q) by {
                    if old(self).has(q) {
                        let j = old(self).index_of(q);
                        assert(self.entries@[j].0@ == q);
                    }
                    if self.has(q) {
                        let j = self.index_of(q);
                        assert(old(self).entries@[j].0@ == q);
                    }
                }
                assert forall|q: Seq<char>| self.has(q) implies self.entries@[self.index_of(q)].1
                    == old_map.insert(k, value)[q] by {
                    let j = self.index_of(q);
                    self.lemma_index_of(j);
                    if q != k {
                        old(self).lemma_index_of(j);
                    }
                }
                assert(self.map() =~= old_map.insert(k, value));
            },
            None => {
                self.entries.push((name, value));
                let ghost n = self.entries@.len() - 1;
                assert forall|a: int, b: int|
                    0 <= a < b < self.entries@.len() implies #[trigger] self.entries@[a].0@
                    != #[trigger] self.entries@[b].0@ by {
                    if b == n {
                        assert(old(self).entries@[a].0@ != k);
                    } else {
                        assert(old(self).entries@[a].0@ != old(self).entries@[b].0@);
                    }
                }
                assert forall|q: Seq<char>| #[trigger] self.has(q) == (old(self).has(q) || q == k) by {
                    if old(self).has(q) {
                        let j = old(self).index_of(q);
                        assert(self.entries@[j].0@ == q);
                    }
                    if q == k {
                        assert(self.entries@[n].0@ == q);
                    }
                    if self.has(q) && q != k {
                        let j = self.index_of(q);
                        assert(old(self).entries@[j].0@ == q);
                    }
                }
                assert forall|q: Seq<char>| self.has(q) implies self.entries@[self.index_of(q)].1
                    == old_map.insert(k, value)[q] by {
                    let j = self.index_of(q);
                    self.lemma_index_of(j);
                    if q != k {
                        old(self).lemma_index_of(j);
                    }
                }
                assert(self.map() =~= old_map.insert(k, value));
            },
        }
    }

    /// The value stored under `name`, if any.
    pub fn get(&self, name: &str) -> (r: Option<&V>)
        requires
            self.wf(),
        ensures
            match r {
                Some(v) => self.map().contains_key(name@) && *v == self.map()[name@],
                None => !self.map().contains_key(name@),
            },
    {
        let key = String::from_str(name);
        match self.find(&key) {
            Some(i) => {
                proof {
                    self.lemma_index_of(i as int);
                }
                Some(&self.entries[i].1)
            },
            None => None,
        }
    }

    /// Number of names in the table.
    pub fn len(&self) -> (r: usize)
        requires
            self.wf(),
        ensures
            r == self.map().len(),
    {
        proof {
            self.lemma_len();
        }
        self.entries.len()
    }

    proof fn lemma_len(&self)
        requires
            self.wf(),
        ensures
            self.map().dom().finite(),
            self.map().len() == self.entries@.len(),
    {
        let names = self.entries@.map_values(|e: (String, V)| e.0@);
        assert(names.no_duplicates()) by {
            assert forall|i: int, j: int| 0 <= i < names.len() && 0 <= j < names.len() && i != j
                implies names[i] != names[j] by {
                if i < j {
                    assert(self.entries@[i].0@ != self.entries@[j].0@);
                } else {
                    assert(self.entries@[j].0@ != self.entries@[i].0@);
                }
            }
        }
        assert(self.map().dom() =~= names.to_set()) by {
            assert forall|q: Seq<char>| self.map().dom().contains(q) implies names.contains(q) by {
                let j = self.index_of(q);
                assert(names[j] == q);
            }
            assert forall|q: Seq<char>| names.contains(q) implies self.map().dom().contains(q) by {
                let j = choose|j: int| 0 <= j < names.len() && names[j] == q;
                assert(self.entries@[j].0@ == q);
            }
        }
        names.unique_seq_to_set();
    }
}

} // verus!
