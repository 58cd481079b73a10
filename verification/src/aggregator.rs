//! Aggregator values: global reduction results, keyed by aggregator name,
//! as broadcast from the coordinator to the workers each superstep.

use vstd::prelude::*;
use vstd::string::*;
use crate::table::NamedTable;

verus! {

/// The results of the aggregators, name to serialized value.
#[derive(Debug)]
pub struct AggregatorValues {
    values: NamedTable<Vec<u8>>,
}

impl AggregatorValues {
    #[verifier::type_invariant]
    spec fn inv(&self) -> bool {
        self.values.wf()
    }

    /// The stored results as a map from names to bytes.
    pub closed spec fn values(&self) -> Map<Seq<char>, Seq<u8>> {
        self.values.map().map_values(|v: Vec<u8>| v@)
    }

    pub fn new() -> (r: Self)
        ensures
            r.values() == Map::<Seq<char>, Seq<u8>>::empty(),
    {
        let r = Self { values: NamedTable::new() };
        assert(r.values() =~= Map::<Seq<char>, Seq<u8>>::empty());
        r
    }

    /// Store an aggregate result by name, replacing an earlier one.
    pub fn set(&mut self, name: &str, value: Vec<u8>)
        ensures
            final(self).values() == old(self).values().insert(name@, value@),
    {
        proof {
            use_type_invariant(&*self);
        }
        let ghost before = self.values.map();
        let ghost v = value@;
        let mut table = NamedTable::new();
        std::mem::swap(&mut table, &mut self.values);
        table.insert(String::from_str(name), value);
        self.values = table;
        assert(self.values() =~= old(self).values().insert(name@, v));
    }

    /// Retrieve an aggregate result by name.
    pub fn get(&self, name: &str) -> (r: Option<&[u8]>)
        ensures
            match r {
                Some(v) => self.values().contains_key(name@) && v@ == self.values()[name@],
                None => !self.values().contains_key(name@),
            },
    {
        proof {
            use_type_invariant(self);
        }
        match self.values.get(name) {
            Some(v) => Some(v.as_slice()),
            None => None,
        }
    }
}

impl Default for AggregatorValues {
    fn default() -> (r: Self)
        ensures
            r.values() == Map::<Seq<char>, Seq<u8>>::empty(),
    {
        Self::new()
    }
}

/// A value read back by name is the last value set under that name, and
/// setting one name leaves the others as they were.
pub proof fn lemma_set_then_get(values: Map<Seq<char>, Seq<u8>>, name: Seq<char>, value: Seq<u8>, other: Seq<char>)
    ensures
        values.insert(name, value)[name] == value,
        other != name ==> values.insert(name, value).contains_key(other) == values.contains_key(other),
        other != name && values.contains_key(other) ==> values.insert(name, value)[other] == values[other],
{
}

/// The results after a fresh [`AggregatorValues`] has stored `sets` in
/// order, as `new` and `set` say.
pub open spec fn after_sets(sets: Seq<(Seq<char>, Seq<u8>)>) -> Map<Seq<char>, Seq<u8>>
    decreases sets.len(),
{
    if sets.len() == 0 {
        Map::empty()
    } else {
        after_sets(sets.drop_last()).insert(sets.last().0, sets.last().1)
    }
}

/// The value stored last under `name` in `sets`, if any was.
pub open spec fn last_set(sets: Seq<(Seq<char>, Seq<u8>)>, name: Seq<char>) -> Option<Seq<u8>>
    decreases sets.len(),
{
    if sets.len() == 0 {
        None
    } else if sets.last().0 == name {
        Some(sets.last().1)
    } else {
        last_set(sets.drop_last(), name)
    }
}

/// After storing `sets` in order from none, a result is found under
/// `name` exactly when some store used that name, and it is the value
/// stored last under it.
pub proof fn lemma_last_set_wins(sets: Seq<(Seq<char>, Seq<u8>)>, name: Seq<char>)
    ensures
        after_sets(sets).contains_key(name) == last_set(sets, name) is Some,
        last_set(sets, name) matches Some(v) ==> after_sets(sets)[name] == v,
    decreases sets.len(),
{
    if sets.len() > 0 {
        lemma_last_set_wins(sets.drop_last(), name);
    }
}

/// `after` is `before` once `name` has been set to `value`, as `set` says.
pub open spec fn set_to(before: AggregatorValues, after: AggregatorValues, name: Seq<char>, value: Seq<u8>) -> bool {
    after.values() == before.values().insert(name, value)
}

/// From a fresh `AggregatorValues`, after the calls `set(n_1, v_1)`, ..,
/// `set(n_k, v_k)` in order, the results are `after_sets` of them: a read
/// of `name` finds the value set last under it, or nothing.
pub proof fn lemma_aggregator_sets(states: Seq<AggregatorValues>, sets: Seq<(Seq<char>, Seq<u8>)>)
    requires
        states.len() == sets.len() + 1,
        states[0].values() == Map::<Seq<char>, Seq<u8>>::empty(),
        forall|i: int| 0 <= i < sets.len() ==> set_to(#[trigger] states[i], states[i + 1], sets[i].0, sets[i].1),
    ensures
        states.last().values() == after_sets(sets),
        forall|name: Seq<char>|
            #[trigger] states.last().values().contains_key(name) == last_set(sets, name) is Some,
        forall|name: Seq<char>|
            #[trigger] last_set(sets, name) is Some ==> states.last().values()[name] == last_set(sets, name)->0,
    decreases sets.len(),
{
    if sets.len() > 0 {
        let n = sets.len() - 1;
        let ss = states.drop_last();
        let tt = sets.drop_last();
        assert forall|i: int| 0 <= i < tt.len() implies set_to(#[trigger] ss[i], ss[i + 1], tt[i].0, tt[i].1) by {
            assert(set_to(states[i], states[i + 1], sets[i].0, sets[i].1));
        }
        lemma_aggregator_sets(ss, tt);
        assert(set_to(states[n], states[n + 1], sets[n].0, sets[n].1));
    }
    assert forall|name: Seq<char>| #[trigger] states.last().values().contains_key(name) == last_set(sets, name) is Some by {
        lemma_last_set_wins(sets, name);
    }
    assert forall|name: Seq<char>| #[trigger] last_set(sets, name) is Some implies states.last().values()[name] == last_set(sets, name)->0 by {
        lemma_last_set_wins(sets, name);
    }
}

} // verus!
