//! Graph partitioning: assigning vertices to workers, by hash (the default)
//! or by a precomputed vertex-to-worker map with the hash as fallback.

use vstd::prelude::*;
use std::collections::HashMap;
use crate::config::PartitionConfig;
use crate::text::{content_end, content_end_exec, field, field_exec, lemma_scan_bounds, line_end, line_end_exec, newline, parse_unsigned, parse_unsigned_exec, str_chars};
use crate::types::{VertexId, WorkerId};

verus! {

broadcast use vstd::std_specs::hash::group_hash_axioms;

/// Strategy for partitioning vertices across workers.
#[derive(Debug, Clone)]
pub enum PartitionStrategy {
    /// Default: vertex_id % worker_count
    Hash,
    /// Vertex-to-worker mapping loaded from a file of "vertex_id worker_id"
    /// lines; vertices not in the file fall back to the hash.
    CustomFile { path: String },
}

impl Default for PartitionStrategy {
    fn default() -> (r: Self)
        ensures
            r is Hash,
    {
        PartitionStrategy::Hash
    }
}

/// The worker that the hash strategy assigns to `vertex_id`.
pub open spec fn hash_owner(vertex_id: VertexId, worker_count: usize) -> WorkerId {
    (vertex_id % (worker_count as u64)) as WorkerId
}

/// Partition function abstraction.
pub trait PartitionStrategyImpl: Send + Sync {
    /// The worker that this strategy assigns to a vertex.
    spec fn owner(&self, vertex_id: VertexId, worker_count: usize) -> WorkerId;

    /// Whether this strategy can assign the vertex among `worker_count`
    /// workers (the hash cannot when there are none).
    spec fn defined_at(&self, vertex_id: VertexId, worker_count: usize) -> bool;

    fn partition(&self, vertex_id: VertexId, worker_count: usize) -> (r: WorkerId)
        requires
            self.defined_at(vertex_id, worker_count),
        ensures
            r == self.owner(vertex_id, worker_count),
    ;
}

/// Default hash partitioning: vertex_id % worker_count.
#[derive(Debug, Clone, Default)]
pub struct HashPartition;

impl PartitionStrategyImpl for HashPartition {
    open spec fn owner(&self, vertex_id: VertexId, worker_count: usize) -> WorkerId {
        hash_owner(vertex_id, worker_count)
    }

    open spec fn defined_at(&self, vertex_id: VertexId, worker_count: usize) -> bool {
        worker_count > 0
    }

    fn partition(&self, vertex_id: VertexId, worker_count: usize) -> (r: WorkerId) {
        (vertex_id % (worker_count as u64)) as WorkerId
    }
}

/// Custom partitioning from a precomputed vertex-to-worker map.
#[derive(Debug, Clone)]
pub struct CustomPartition {
    map: HashMap<VertexId, WorkerId>,
    fallback: HashPartition,
}

impl CustomPartition {
    /// The explicit vertex-to-worker assignments.
    pub closed spec fn mapping(&self) -> Map<VertexId, WorkerId> {
        self.map@
    }

    pub fn from_map(map: HashMap<VertexId, WorkerId>) -> (r: Self)
        ensures
            r.mapping() == map@,
    {
        Self { map, fallback: HashPartition }
    }
}

/// The assignment that the line `s[start..le]` of a partition file holds:
/// its first two fields as a vertex id and a worker id, if both parse.
pub open spec fn mapping_line(s: Seq<char>, start: int, le: int) -> Option<(VertexId, WorkerId)> {
    let ce = content_end(s, start, le);
    let f1 = field(s, start, ce);
    let f2 = field(s, f1.1, ce);
    if f1.0 >= ce || f2.0 >= ce {
        None
    } else {
        match (
            parse_unsigned(s.subrange(f1.0, f1.1), u64::MAX),
            parse_unsigned(s.subrange(f2.0, f2.1), u32::MAX as u64),
        ) {
            (Some(v), Some(w)) => Some((v, w as WorkerId)),
            _ => None,
        }
    }
}

/// The assignments of the lines from `start` on, added to `m` in order (a
/// later line for the same vertex replaces an earlier one).
pub open spec fn mappings_from(s: Seq<char>, start: int, m: Map<VertexId, WorkerId>) -> Map<VertexId, WorkerId>
    decreases s.len() + 1 - start,
{
    if start < 0 || start > s.len() {
        m
    } else {
        let le = line_end(s, start);
        proof {
            lemma_scan_bounds(s, start, s.len() as int, newline());
        }
        let m2 = match mapping_line(s, start, le) {
            Some((v, w)) => m.insert(v, w),
            None => m,
        };
        mappings_from(s, le + 1, m2)
    }
}

impl CustomPartition {
    /// Read a partition file's text: one "vertex_id worker_id" pair per
    /// line; text after `#` is a comment; lines whose first two fields do
    /// not parse are ignored; a later line for a vertex overrides an
    /// earlier one.
    pub fn parse(text: &str) -> (r: Self)
        ensures
            r.mapping() == mappings_from(text@, 0, Map::empty()),
    {
        let s = str_chars(text);
        let ghost sv = s@;
        let mut map: HashMap<VertexId, WorkerId> = HashMap::new();
        let mut start: usize = 0;
        loop
            invariant
                s@ == sv,
                sv == text@,
                start <= sv.len(),
                mappings_from(sv, start as int, map@) == mappings_from(sv, 0, Map::empty()),
            decreases sv.len() - start,
        {
            let le = line_end_exec(&s, start);
            let ce = content_end_exec(&s, start, le);
            let (a1, b1) = field_exec(&s, start, ce);
            let (a2, b2) = field_exec(&s, b1, ce);
            proof {
                lemma_scan_bounds(sv, start as int, sv.len() as int, newline());
            }
            if a1 < ce && a2 < ce {
                let v = parse_unsigned_exec(&s, a1, b1, u64::MAX);
                let w = parse_unsigned_exec(&s, a2, b2, u32::MAX as u64);
                match (v, w) {
                    (Some(v), Some(w)) => {
                        map.insert(v, w as WorkerId);
                    },
                    _ => {},
                }
            }
            if le >= s.len() {
                assert(mappings_from(sv, le + 1, map@) == map@);
                return Self { map, fallback: HashPartition };
            }
            start = le + 1;
        }
    }
}

impl PartitionStrategyImpl for CustomPartition {
    open spec fn owner(&self, vertex_id: VertexId, worker_count: usize) -> WorkerId {
        if self.mapping().contains_key(vertex_id) {
            self.mapping()[vertex_id]
        } else {
            hash_owner(vertex_id, worker_count)
        }
    }

    /// A mapped vertex needs no worker count; the others fall back to the
    /// hash.
    open spec fn defined_at(&self, vertex_id: VertexId, worker_count: usize) -> bool {
        self.mapping().contains_key(vertex_id) || worker_count > 0
    }

    fn partition(&self, vertex_id: VertexId, worker_count: usize) -> (r: WorkerId) {
        match self.map.get(&vertex_id) {
            Some(w) => *w,
            None => self.fallback.partition(vertex_id, worker_count),
        }
    }
}

/// Determine which worker owns a vertex under the default hash strategy.
pub fn partition(vertex_id: VertexId, worker_count: usize) -> (r: WorkerId)
    requires
        worker_count > 0,
    ensures
        r == hash_owner(vertex_id, worker_count),
{
    HashPartition.partition(vertex_id, worker_count)
}

/// The hash owner is a worker of the cluster whenever worker ids can name
/// every worker, and it depends on the vertex id modulo the worker count only.
pub proof fn lemma_hash_owner_in_range(vertex_id: VertexId, other: VertexId, worker_count: usize)
    requires
        0 < worker_count <= 0x1_0000_0000,
    ensures
        (hash_owner(vertex_id, worker_count) as int) < worker_count,
        hash_owner(vertex_id, worker_count) as int == vertex_id as int % worker_count as int,
        vertex_id as int % worker_count as int == other as int % worker_count as int
            ==> hash_owner(vertex_id, worker_count) == hash_owner(other, worker_count),
{
    let w = worker_count as u64;
    assert(vertex_id % w < w);
}

impl PartitionStrategy {
    /// The strategy that a job's partition configuration selects; hash when
    /// the job configures none.
    pub open spec fn spec_from_config(cfg: Option<PartitionConfig>) -> PartitionStrategy {
        match cfg {
            None => PartitionStrategy::Hash,
            Some(PartitionConfig::Hash) => PartitionStrategy::Hash,
            Some(PartitionConfig::CustomFile { path }) => PartitionStrategy::CustomFile { path },
        }
    }
}

impl From<Option<PartitionConfig>> for PartitionStrategy {
    fn from(cfg: Option<PartitionConfig>) -> (r: Self) {
        match cfg {
            None => PartitionStrategy::Hash,
            Some(PartitionConfig::Hash) => PartitionStrategy::Hash,
            Some(PartitionConfig::CustomFile { path }) => PartitionStrategy::CustomFile { path },
        }
    }
}

impl vstd::std_specs::convert::FromSpecImpl<Option<PartitionConfig>> for PartitionStrategy {
    open spec fn obeys_from_spec() -> bool {
        true
    }

    open spec fn from_spec(cfg: Option<PartitionConfig>) -> PartitionStrategy {
        PartitionStrategy::spec_from_config(cfg)
    }
}

/// A strategy ready to assign vertices: the hash, or a loaded map.
#[derive(Debug, Clone)]
pub enum LoadedStrategy {
    Hash(HashPartition),
    Custom(CustomPartition),
}

impl PartitionStrategyImpl for LoadedStrategy {
    open spec fn owner(&self, vertex_id: VertexId, worker_count: usize) -> WorkerId {
        match self {
            LoadedStrategy::Hash(h) => h.owner(vertex_id, worker_count),
            LoadedStrategy::Custom(c) => c.owner(vertex_id, worker_count),
        }
    }

    open spec fn defined_at(&self, vertex_id: VertexId, worker_count: usize) -> bool {
        match self {
            LoadedStrategy::Hash(h) => h.defined_at(vertex_id, worker_count),
            LoadedStrategy::Custom(c) => c.defined_at(vertex_id, worker_count),
        }
    }

    fn partition(&self, vertex_id: VertexId, worker_count: usize) -> (r: WorkerId) {
        match self {
            LoadedStrategy::Hash(h) => h.partition(vertex_id, worker_count),
            LoadedStrategy::Custom(c) => c.partition(vertex_id, worker_count),
        }
    }
}

impl LoadedStrategy {
    /// Whether the strategy can assign the vertex among `worker_count`
    /// workers.
    pub fn defines(&self, vertex_id: VertexId, worker_count: usize) -> (r: bool)
        ensures
            r == self.defined_at(vertex_id, worker_count),
    {
        match self {
            LoadedStrategy::Hash(_) => worker_count > 0,
            LoadedStrategy::Custom(c) => worker_count > 0 || c.map.contains_key(&vertex_id),
        }
    }
}

/// The strategy that `strategy` names, ready for use. For a custom file,
/// `custom_text` is the content of the file at its path (the caller reads
/// it); for the hash strategy it is not looked at.
pub fn load_strategy(strategy: &PartitionStrategy, custom_text: &str) -> (r: LoadedStrategy)
    ensures
        strategy is Hash ==> r is Hash,
        strategy is CustomFile ==> (r matches LoadedStrategy::Custom(c) && c.mapping() == mappings_from(
            custom_text@,
            0,
            Map::empty(),
        )),
{
    match strategy {
        PartitionStrategy::Hash => LoadedStrategy::Hash(HashPartition),
        PartitionStrategy::CustomFile { path } => LoadedStrategy::Custom(CustomPartition::parse(custom_text)),
    }
}

/// Metadata about a partition, as reported to the coordinator.
#[derive(Debug, Clone)]
pub struct PartitionMetadata {
    pub worker_id: WorkerId,
    pub vertex_count: u64,
}

} // verus!
