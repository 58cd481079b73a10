//! Checkpoints: the snapshot of a worker's partition at a superstep, the
//! conversion of a partition into one, restoring a partition from one, and
//! where checkpoint files live.

use vstd::prelude::*;
use vstd::string::*;
use vstd::std_specs::iter::IteratorSpec;
use std::collections::HashMap;
use crate::storage::{copy_bytes, copy_ids, GraphPartition, VertexData, VertexDataView};
use crate::text::{decimal, u64_to_decimal};
use crate::types::{VertexId, WorkerId};

verus! {

broadcast use vstd::std_specs::hash::group_hash_axioms;

/// A snapshot of a worker's state at a given superstep.
#[derive(Debug, Clone)]
pub struct Checkpoint {
    pub superstep: u64,
    pub vertices: Vec<VertexState>,
}

/// Serialized form of a single vertex for checkpointing.
#[derive(Debug, Clone)]
pub struct VertexState {
    pub id: u64,
    pub value: Vec<u8>,
    pub edges: Vec<u64>,
}

impl View for VertexState {
    type V = VertexDataView;

    open spec fn view(&self) -> VertexDataView {
        VertexDataView { id: self.id, value: self.value@, edges: self.edges@ }
    }
}

impl From<VertexData> for VertexState {
    fn from(v: VertexData) -> (r: Self) {
        Self { id: v.id, value: v.value, edges: v.edges }
    }
}

impl vstd::std_specs::convert::FromSpecImpl<VertexData> for VertexState {
    open spec fn obeys_from_spec() -> bool {
        true
    }

    open spec fn from_spec(v: VertexData) -> VertexState {
        VertexState { id: v.id, value: v.value, edges: v.edges }
    }
}

/// The partition contents that a list of vertex states restores to: each
/// state is stored under its id, a later state replacing an earlier one.
pub open spec fn states_map(s: Seq<VertexState>) -> Map<VertexId, VertexDataView>
    decreases s.len(),
{
    if s.len() == 0 {
        Map::empty()
    } else {
        states_map(s.drop_last()).insert(s.last().id, s.last()@)
    }
}

/// Every vertex of the partition is stored under its own id.
pub open spec fn keyed_by_id(m: Map<VertexId, VertexData>) -> bool {
    forall|k: VertexId| #[trigger] m.contains_key(k) ==> m[k].id == k
}

/// Whether some vertex of the partition has the contents `v`.
pub open spec fn stores(m: Map<VertexId, VertexData>, v: VertexDataView) -> bool {
    exists|k: VertexId| #[trigger] m.contains_key(k) && m[k]@ == v
}

impl Checkpoint {
    /// The checkpoint of a partition: one state per stored vertex, in the
    /// map's iteration order.
    pub fn from_partition(superstep: u64, partition: &GraphPartition) -> (r: Checkpoint)
        ensures
            r.superstep == superstep,
            r.vertices@.len() == partition.vertices@.len(),
            forall|i: int|
                0 <= i < r.vertices@.len() ==> stores(partition.vertices@, #[trigger] r.vertices@[i]@),
            forall|k: VertexId|
                #[trigger] partition.vertices@.contains_key(k) ==> exists|i: int|
                    0 <= i < r.vertices@.len() && #[trigger] r.vertices@[i]@
                        == partition.vertices@[k]@,
            keyed_by_id(partition.vertices@) ==> forall|i: int, j: int|
                0 <= i < j < r.vertices@.len() ==> #[trigger] r.vertices@[i].id
                    != #[trigger] r.vertices@[j].id,
    {
        let mut vertices: Vec<VertexState> = Vec::new();
        let ghost m = partition.vertices@;
        let ghost s = vstd::std_specs::hash::spec_hash_map_iter(&partition.vertices).remaining();
        for (k, v) in it: partition.vertices.iter()
            invariant
                it.seq() == s,
                vertices@.len() == it.index(),
                m == partition.vertices@,
                it.seq().len() == m.dom().len(),
                forall|i: int|
                    0 <= i < it.seq().len() ==> m.contains_key(*(#[trigger] it.seq()[i]).0) && m[*it.seq()[i].0]
                        == *it.seq()[i].1,
                forall|kk: VertexId| #[trigger] m.contains_key(kk) ==> it.seq().contains((&kk, &m[kk])),
                it.seq().no_duplicates(),
                forall|i: int|
                    0 <= i < vertices@.len() ==> #[trigger] vertices@[i]@ == (*it.seq()[i].1)@,
        {
            let d = v.copy();
            vertices.push(VertexState { id: d.id, value: d.value, edges: d.edges });
        }
        let r = Checkpoint { superstep, vertices };
        assert forall|i: int| 0 <= i < r.vertices@.len() implies stores(partition.vertices@, #[trigger] r.vertices@[i]@) by {
            let k = *s[i].0;
            assert(partition.vertices@.contains_key(k));
            assert(r.vertices@[i]@ == partition.vertices@[k]@);
        }
        assert forall|k: VertexId| #[trigger] m.contains_key(k) implies exists|i: int|
            0 <= i < r.vertices@.len() && #[trigger] r.vertices@[i]@ == m[k]@ by {
            assert(s.contains((&k, &m[k])));
            let i = choose|i: int| 0 <= i < s.len() && s[i] == (&k, &m[k]);
            assert(r.vertices@[i]@ == m[k]@);
        }
        proof {
            if keyed_by_id(m) {
            assert forall|i: int, j: int| 0 <= i < j < r.vertices@.len() implies #[trigger] r.vertices@[i].id
                != #[trigger] r.vertices@[j].id by {
                assert(m.contains_key(*s[i].0));
                assert(m.contains_key(*s[j].0));
                assert(r.vertices@[i].id == m[*s[i].0].id);
                assert(r.vertices@[j].id == m[*s[j].0].id);
                if *s[i].0 == *s[j].0 {
                    assert(s[i] == s[j]);
                }
            }
            }
        }
        r
    }
}

/// Rebuilding a partition from a checkpoint.
pub struct Recovery;

impl Recovery {
    /// Convert a loaded checkpoint into a partition: every state is stored
    /// under its id.
    pub fn restore_partition(checkpoint: Checkpoint) -> (r: GraphPartition)
        ensures
            r.vertex_map() == states_map(checkpoint.vertices@),
            keyed_by_id(r.vertices@),
    {
        let mut vertices: HashMap<VertexId, VertexData> = HashMap::new();
        let ghost states = checkpoint.vertices@;
        let mut rest = checkpoint.vertices;
        let mut i: usize = 0;
        let n = rest.len();
        while i < n
            invariant
                0 <= i <= n,
                n == states.len(),
                rest@.len() == n,
                forall|j: int| i <= j < n ==> #[trigger] rest@[j]@ == states[j]@,
                vertices@.map_values(|v: VertexData| v@) == states_map(states.take(i as int)),
                keyed_by_id(vertices@),
            decreases n - i,
        {
            let vs = &rest[i];
            let d = VertexData { id: vs.id, value: copy_bytes(&vs.value), edges: copy_ids(&vs.edges) };
            let ghost before = vertices@;
            vertices.insert(vs.id, d);
            proof {
                assert(states.take(i as int + 1).drop_last() =~= states.take(i as int));
                assert(states.take(i as int + 1).last() == states[i as int]);
                assert(rest@[i as int]@ == states[i as int]@);
                assert(d@ == states[i as int]@);
                let after = vertices@.map_values(|v: VertexData| v@);
                let expect = before.map_values(|v: VertexData| v@).insert(states[i as int].id, states[i as int]@);
                assert forall|k: VertexId| #[trigger] after.contains_key(k) <==> expect.contains_key(k) by {}
                assert forall|k: VertexId| after.contains_key(k) implies #[trigger] after[k] == expect[k] by {
                    if k != states[i as int].id {
                        assert(vertices@[k] == before[k]);
                    }
                }
                assert(after =~= expect);
            }
            i = i + 1;
        }
        assert(states.take(n as int) =~= states);
        GraphPartition { vertices }
    }
}

/// The restored contents of a list of states with distinct ids hold each
/// state under its id and nothing else.
pub proof fn lemma_states_map_distinct(s: Seq<VertexState>)
    requires
        forall|i: int, j: int| 0 <= i < j < s.len() ==> #[trigger] s[i].id != #[trigger] s[j].id,
    ensures
        forall|k: VertexId|
            #[trigger] states_map(s).contains_key(k) <==> exists|i: int| 0 <= i < s.len() && s[i].id == k,
        forall|i: int| 0 <= i < s.len() ==> #[trigger] states_map(s)[s[i].id] == s[i]@,
    decreases s.len(),
{
    if s.len() > 0 {
        let t = s.drop_last();
        assert forall|i: int, j: int| 0 <= i < j < t.len() implies #[trigger] t[i].id != #[trigger] t[j].id by {
            assert(s[i].id != s[j].id);
        }
        lemma_states_map_distinct(t);
        assert(states_map(s) == states_map(t).insert(s.last().id, s.last()@));
        assert forall|k: VertexId| #[trigger] states_map(s).contains_key(k) <==> exists|i: int|
            0 <= i < s.len() && s[i].id == k by {
            if states_map(s).contains_key(k) && k != s.last().id {
                let i = choose|i: int| 0 <= i < t.len() && t[i].id == k;
                assert(s[i].id == k);
            }
            if exists|i: int| 0 <= i < s.len() && s[i].id == k {
                let i = choose|i: int| 0 <= i < s.len() && s[i].id == k;
                if i < t.len() {
                    assert(t[i].id == k);
                }
            }
        }
        assert forall|i: int| 0 <= i < s.len() implies #[trigger] states_map(s)[s[i].id] == s[i]@ by {
            if i < t.len() {
                assert(s[i].id != s[s.len() - 1].id);
                assert(t[i] == s[i]);
            }
        }
    }
}

/// Restoring the checkpoint of a partition gives the partition back: for a
/// partition whose vertices are stored under their own ids, any list of
/// states that holds each stored vertex exactly once (as
/// `Checkpoint::from_partition` produces, in whatever order) restores to the
/// same contents.
pub proof fn lemma_checkpoint_roundtrip(p: GraphPartition, states: Seq<VertexState>)
    requires
        keyed_by_id(p.vertices@),
        forall|i: int| 0 <= i < states.len() ==> stores(p.vertices@, #[trigger] states[i]@),
        forall|k: VertexId|
            #[trigger] p.vertices@.contains_key(k) ==> exists|i: int|
                0 <= i < states.len() && #[trigger] states[i]@ == p.vertices@[k]@,
        forall|i: int, j: int| 0 <= i < j < states.len() ==> #[trigger] states[i].id != #[trigger] states[j].id,
    ensures
        states_map(states) == p.vertex_map(),
{
    lemma_states_map_distinct(states);
    let m = p.vertices@;
    assert forall|k: VertexId| #[trigger] states_map(states).contains_key(k) <==> p.vertex_map().contains_key(k) by {
        if states_map(states).contains_key(k) {
            let i = choose|i: int| 0 <= i < states.len() && states[i].id == k;
            assert(stores(m, states[i]@));
            let kk = choose|kk: VertexId| #[trigger] m.contains_key(kk) && m[kk]@ == states[i]@;
            assert(m[kk].id == kk);
        }
        if m.contains_key(k) {
            let i = choose|i: int| 0 <= i < states.len() && #[trigger] states[i]@ == m[k]@;
            assert(states[i].id == m[k].id);
        }
    }
    assert forall|k: VertexId| #[trigger] states_map(states).contains_key(k) implies states_map(states)[k] == p.vertex_map()[k] by {
        let i = choose|i: int| 0 <= i < states.len() && #[trigger] states[i]@ == m[k]@;
        assert(states[i].id == m[k].id);
        assert(states_map(states)[states[i].id] == states[i]@);
    }
    assert(states_map(states) =~= p.vertex_map());
}

/// Where a worker's checkpoints are stored: files named
/// `{storage_path}/worker_{id}_step_{superstep}.ckpt`.
pub struct CheckpointManager {
    storage_path: String,
}

impl CheckpointManager {
    /// The directory that holds the checkpoint files.
    pub closed spec fn spec_storage_path(&self) -> Seq<char> {
        self.storage_path@
    }

    pub fn new(storage_path: String) -> (r: Self)
        ensures
            r.spec_storage_path() == storage_path@,
    {
        Self { storage_path }
    }

    /// The file that holds the checkpoint of a worker at a superstep.
    pub open spec fn spec_path(&self, worker_id: WorkerId, superstep: u64) -> Seq<char> {
        self.spec_storage_path() + "/worker_"@ + decimal(worker_id as nat) + "_step_"@ + decimal(
            superstep as nat,
        ) + ".ckpt"@
    }

    pub fn checkpoint_path(&self, worker_id: WorkerId, superstep: u64) -> (r: String)
        ensures
            r@ == self.spec_path(worker_id, superstep),
    {
        let mut p = self.storage_path.clone();
        p.append("/worker_");
        let w = u64_to_decimal(worker_id as u64);
        p.append(w.as_str());
        p.append("_step_");
        let st = u64_to_decimal(superstep);
        p.append(st.as_str());
        p.append(".ckpt");
        p
    }
}

} // verus!
