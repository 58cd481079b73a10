//! A worker's local vertex store.

use vstd::prelude::*;
use std::collections::HashMap;
use crate::partition::hash_owner;
use crate::types::{VertexId, WorkerId};

verus! {

broadcast use vstd::std_specs::hash::group_hash_axioms;

/// Raw vertex data as stored by the runtime: id, serialized value, and the
/// targets of its outgoing edges.
#[derive(Debug, Clone)]
pub struct VertexData {
    pub id: VertexId,
    pub value: Vec<u8>,
    pub edges: Vec<VertexId>,
}

/// The contents of a vertex as plain values.
pub struct VertexDataView {
    pub id: VertexId,
    pub value: Seq<u8>,
    pub edges: Seq<VertexId>,
}

impl View for VertexData {
    type V = VertexDataView;

    open spec fn view(&self) -> VertexDataView {
        VertexDataView { id: self.id, value: self.value@, edges: self.edges@ }
    }
}

/// A copy of a byte vector.
pub fn copy_bytes(v: &Vec<u8>) -> (r: Vec<u8>)
    ensures
        r@ == v@,
{
    let mut r: Vec<u8> = Vec::with_capacity(v.len());
    for i in 0..v.len()
        invariant
            r@ == v@.take(i as int),
    {
        r.push(v[i]);
    }
    assert(r@ =~= v@);
    r
}

/// A copy of a list of vertex ids.
pub fn copy_ids(v: &Vec<VertexId>) -> (r: Vec<VertexId>)
    ensures
        r@ == v@,
{
    let mut r: Vec<VertexId> = Vec::with_capacity(v.len());
    for i in 0..v.len()
        invariant
            r@ == v@.take(i as int),
    {
        r.push(v[i]);
    }
    assert(r@ =~= v@);
    r
}

impl VertexData {
    /// A copy of the vertex.
    pub fn copy(&self) -> (r: VertexData)
        ensures
            r@ == self@,
    {
        VertexData { id: self.id, value: copy_bytes(&self.value), edges: copy_ids(&self.edges) }
    }
}

/// A worker's local partition of the graph: vertex id to vertex data.
#[derive(Debug, Default)]
pub struct GraphPartition {
    pub vertices: HashMap<VertexId, VertexData>,
}

impl GraphPartition {
    /// The partition as a map from vertex ids to vertex contents.
    pub open spec fn vertex_map(&self) -> Map<VertexId, VertexDataView> {
        self.vertices@.map_values(|v: VertexData| v@)
    }

    pub fn new() -> (r: Self)
        ensures
            r.vertices@ == Map::<VertexId, VertexData>::empty(),
    {
        Self { vertices: HashMap::new() }
    }

    /// Store a vertex under its id, replacing any vertex with that id.
    pub fn add_vertex(&mut self, vertex: VertexData)
        ensures
            final(self).vertices@ == old(self).vertices@.insert(vertex.id, vertex),
    {
        self.vertices.insert(vertex.id, vertex);
    }

    pub fn get_vertex(&self, id: VertexId) -> (r: Option<&VertexData>)
        ensures
            match r {
                Some(v) => self.vertices@.contains_key(id) && *v == self.vertices@[id],
                None => !self.vertices@.contains_key(id),
            },
    {
        self.vertices.get(&id)
    }

    pub fn vertex_count(&self) -> (r: usize)
        ensures
            r == self.vertices@.len(),
    {
        self.vertices.len()
    }
}

/// A vertex read back after it was added is the vertex that was added, and
/// adding leaves every other vertex as it was.
pub proof fn lemma_add_then_get(p: Map<VertexId, VertexData>, v: VertexData, other: VertexId)
    ensures
        p.insert(v.id, v).contains_key(v.id),
        p.insert(v.id, v)[v.id] == v,
        other != v.id ==> (p.insert(v.id, v).contains_key(other) == p.contains_key(other)),
        other != v.id && p.contains_key(other) ==> p.insert(v.id, v)[other] == p[other],
{
}

/// The ids of a sequence of vertices.
pub open spec fn ids_of(vs: Seq<VertexData>) -> Set<VertexId> {
    vs.map_values(|v: VertexData| v.id).to_set()
}

/// `after` is `before` once `v` has been added, as `add_vertex` says.
pub open spec fn added(before: GraphPartition, after: GraphPartition, v: VertexData) -> bool {
    after.vertices@ == before.vertices@.insert(v.id, v)
}

/// From an empty partition, after adding `vs` in order, the stored ids are
/// exactly the ids of `vs`, the vertex count is the number of distinct
/// ids, and every vertex is stored under its own id.
pub proof fn lemma_partition_adds(states: Seq<GraphPartition>, vs: Seq<VertexData>)
    requires
        states.len() == vs.len() + 1,
        states[0].vertices@ == Map::<VertexId, VertexData>::empty(),
        forall|i: int| 0 <= i < vs.len() ==> added(#[trigger] states[i], states[i + 1], vs[i]),
    ensures
        states.last().vertices@.dom() == ids_of(vs),
        states.last().vertices@.len() == ids_of(vs).len(),
        forall|k: VertexId| #[trigger] states.last().vertices@.contains_key(k) ==> states.last().vertices@[k].id == k,
    decreases vs.len(),
{
    if vs.len() == 0 {
        assert(ids_of(vs) =~= Set::<VertexId>::empty());
        assert(states[0].vertices@.dom() =~= Set::<VertexId>::empty());
    } else {
        let n = vs.len() - 1;
        let ss = states.drop_last();
        let ww = vs.drop_last();
        assert forall|i: int| 0 <= i < ww.len() implies added(#[trigger] ss[i], ss[i + 1], ww[i]) by {
            assert(added(states[i], states[i + 1], vs[i]));
        }
        lemma_partition_adds(ss, ww);
        assert(added(states[n], states[n + 1], vs[n]));
        assert(vs.map_values(|v: VertexData| v.id) =~= ww.map_values(|v: VertexData| v.id).push(vs[n].id));
        ww.map_values(|v: VertexData| v.id).lemma_push_to_set_commute(vs[n].id);
        assert(states.last().vertices@.dom() =~= ids_of(vs));
    }
}

/// Determine which worker owns a vertex under the default hash strategy;
/// the same function as [`crate::partition::partition`].
pub fn partition(vertex_id: VertexId, worker_count: usize) -> (r: WorkerId)
    requires
        worker_count > 0,
    ensures
        r == hash_owner(vertex_id, worker_count),
{
    crate::partition::partition(vertex_id, worker_count)
}

} // verus!
