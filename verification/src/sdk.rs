//! The developer-facing API for vertex programs: the vertex, the compute
//! context through which vertices send messages, and the traits that
//! algorithm authors implement.

use vstd::prelude::*;
use crate::types::VertexId;

verus! {

/// A single vertex: its id, its algorithm-specific value, and the targets
/// of its outgoing edges.
#[derive(Debug, Clone)]
pub struct Vertex<V> {
    pub id: VertexId,
    pub value: V,
    pub edges: Vec<VertexId>,
}

impl<V> Vertex<V> {
    pub fn new(id: VertexId, value: V, edges: Vec<VertexId>) -> (r: Self)
        ensures
            r.id == id,
            r.value == value,
            r.edges == edges,
    {
        Self { id, value, edges }
    }
}

/// Context provided to each vertex's compute call: the superstep, the
/// graph size, and the messages the vertex sends.
#[derive(Debug, Default)]
pub struct Context<M> {
    /// Current superstep number (0-indexed).
    pub superstep: u64,
    /// Total vertices in the graph.
    pub total_vertices: u64,
    /// Messages to send: pairs of (target_vertex_id, message).
    pub outgoing: Vec<(VertexId, M)>,
}

impl<M> Context<M> {
    pub fn new(superstep: u64, total_vertices: u64) -> (r: Self)
        ensures
            r.superstep == superstep,
            r.total_vertices == total_vertices,
            r.outgoing@ == Seq::<(VertexId, M)>::empty(),
    {
        Self { superstep, total_vertices, outgoing: Vec::new() }
    }

    /// Send a message to another vertex; it is delivered at the start of
    /// the next superstep.
    pub fn send(&mut self, target: VertexId, msg: M)
        ensures
            final(self).outgoing@ == old(self).outgoing@.push((target, msg)),
            final(self).superstep == old(self).superstep,
            final(self).total_vertices == old(self).total_vertices,
    {
        self.outgoing.push((target, msg));
    }

    pub fn superstep(&self) -> (r: u64)
        ensures
            r == self.superstep,
    {
        self.superstep
    }

    pub fn total_vertices(&self) -> (r: u64)
        ensures
            r == self.total_vertices,
    {
        self.total_vertices
    }

    /// Contribute to a named aggregator. The runtime does not collect
    /// contributions yet, so the context is left unchanged.
    pub fn aggregate(&mut self, name: &str, value: impl std::any::Any)
        ensures
            final(self).outgoing@ == old(self).outgoing@,
            final(self).superstep == old(self).superstep,
            final(self).total_vertices == old(self).total_vertices,
    {
    }
}

/// Reduction of the values that all vertices contribute into one result
/// (sum, max, count, ...), implemented by algorithm authors.
pub trait Aggregator<V, R>: Send + Sync {
    fn aggregate(&self, values: impl Iterator<Item = V>) -> R;
}

/// Marker for types that can be sent as messages between vertices.
pub trait Message: Send + Sync + Clone {}

impl<T: Send + Sync + Clone> Message for T {}

/// The main trait for implementing an algorithm: `compute` runs once per
/// vertex per superstep, may update the vertex value, and sends messages
/// through the context.
pub trait VertexProgram: Send + Sync {
    /// The type of value stored at each vertex.
    type VertexValue: Send + Sync;
    /// The type of message sent between vertices.
    type Message: Send + Sync + Clone;

    fn compute(
        &mut self,
        vertex: &mut Vertex<Self::VertexValue>,
        messages: &[(VertexId, Self::Message)],
        ctx: &mut Context<Self::Message>,
    );
}

/// Vertex selection order within a superstep.
pub trait VertexScheduler {
    /// The next vertex to process, or `None` when the superstep is done.
    fn next_vertex(&mut self) -> Option<VertexId>;
}

} // verus!
