//! Graph loading from the edge-list text format, and the assignment of the
//! loaded vertices to workers with their initial values.
//!
//! Format: one edge per line, "src dest" or "src dest weight"; text after
//! `#` is a comment; lines with fewer than two fields are skipped.

use vstd::prelude::*;
use vstd::string::*;
use vstd::std_specs::iter::IteratorSpec;
use std::collections::HashMap;
use crate::algo::{AlgoMetadata, Algorithm, ResultQuery};
use crate::checkpoint::keyed_by_id;
use crate::codec::{encode_u64, u64_le_bytes};
use crate::errors::PregelError;
use crate::partition::{hash_owner, lemma_hash_owner_in_range, HashPartition, PartitionStrategyImpl};
use crate::storage::{copy_bytes, copy_ids, GraphPartition, VertexData, VertexDataView};
use crate::text::{content_end, content_end_exec, field, field_exec, lemma_scan_bounds, line_end, line_end_exec, newline, parse_unsigned, parse_unsigned_exec, str_chars};
use crate::types::VertexId;

verus! {

broadcast use vstd::std_specs::hash::group_hash_axioms;

/// What one line of an edge list contributes.
pub enum LineEdge {
    /// The line has fewer than two fields.
    Skip,
    /// A field that is not a vertex id.
    Bad(Seq<char>),
    /// An edge from the first field to the second.
    Edge(VertexId, VertexId),
}

/// The contribution of the line `s[start..le]`.
pub open spec fn line_edge(s: Seq<char>, start: int, le: int) -> LineEdge {
    let ce = content_end(s, start, le);
    let f1 = field(s, start, ce);
    let f2 = field(s, f1.1, ce);
    if f1.0 >= ce || f2.0 >= ce {
        LineEdge::Skip
    } else {
        let t1 = s.subrange(f1.0, f1.1);
        let t2 = s.subrange(f2.0, f2.1);
        match parse_unsigned(t1, u64::MAX) {
            None => LineEdge::Bad(t1),
            Some(a) => match parse_unsigned(t2, u64::MAX) {
                None => LineEdge::Bad(t2),
                Some(b) => LineEdge::Edge(a, b),
            },
        }
    }
}

/// The edges of the lines from `start` on, in order, or the first field
/// that is not a vertex id.
pub open spec fn edges_from(s: Seq<char>, start: int) -> Result<Seq<(VertexId, VertexId)>, Seq<char>>
    decreases s.len() + 1 - start,
{
    if start < 0 || start > s.len() {
        Ok(Seq::empty())
    } else {
        let le = line_end(s, start);
        proof {
            lemma_scan_bounds(s, start, s.len() as int, newline());
        }
        match line_edge(s, start, le) {
            LineEdge::Skip => edges_from(s, le + 1),
            LineEdge::Bad(t) => Err(t),
            LineEdge::Edge(a, b) => match edges_from(s, le + 1) {
                Ok(rest) => Ok(seq![(a, b)] + rest),
                Err(t) => Err(t),
            },
        }
    }
}

/// The edges of an edge-list text, or the first field that is not a vertex id.
pub open spec fn edge_list(text: Seq<char>) -> Result<Seq<(VertexId, VertexId)>, Seq<char>> {
    edges_from(text, 0)
}

/// `acc` followed by the outcome `r`.
pub open spec fn after(acc: Seq<(VertexId, VertexId)>, r: Result<Seq<(VertexId, VertexId)>, Seq<char>>) -> Result<Seq<(VertexId, VertexId)>, Seq<char>> {
    match r {
        Ok(rest) => Ok(acc + rest),
        Err(t) => Err(t),
    }
}

/// Parse an edge-list text into its edges, in file order. A field that is
/// not an unsigned 64-bit decimal number fails the whole text with
/// `Serialization("Invalid vertex id: <field>")`.
pub fn parse_edge_list(text: &str) -> (r: Result<Vec<(VertexId, VertexId)>, PregelError>)
    ensures
        match r {
            Ok(v) => edge_list(text@) == Ok::<Seq<(VertexId, VertexId)>, Seq<char>>(v@),
            Err(e) => edge_list(text@) is Err && e is Serialization && e->Serialization_0@
                == "Invalid vertex id: "@ + edge_list(text@)->Err_0,
        },
{
    let s = str_chars(text);
    let ghost sv = s@;
    let mut acc: Vec<(VertexId, VertexId)> = Vec::new();
    let mut start: usize = 0;
    loop
        invariant
            s@ == sv,
            sv == text@,
            start <= sv.len(),
            after(acc@, edges_from(sv, start as int)) == edges_from(sv, 0),
        decreases sv.len() - start,
    {
        let le = line_end_exec(&s, start);
        let ce = content_end_exec(&s, start, le);
        let (a1, b1) = field_exec(&s, start, ce);
        let (a2, b2) = field_exec(&s, b1, ce);
        proof {
            lemma_scan_bounds(sv, start as int, sv.len() as int, newline());
            assert(edges_from(sv, start as int) == match line_edge(sv, start as int, le as int) {
                LineEdge::Skip => edges_from(sv, le + 1),
                LineEdge::Bad(t) => Err(t),
                LineEdge::Edge(a, b) => match edges_from(sv, le + 1) {
                    Ok(rest) => Ok(seq![(a, b)] + rest),
                    Err(t) => Err(t),
                },
            });
        }
        if a1 < ce && a2 < ce {
            let src = parse_unsigned_exec(&s, a1, b1, u64::MAX);
            let src = match src {
                Some(v) => v,
                None => {
                    let tok = text.substring_char(a1, b1);
                    let msg = String::from_str("Invalid vertex id: ").concat(tok);
                    return Err(PregelError::Serialization(msg));
                },
            };
            let dst = parse_unsigned_exec(&s, a2, b2, u64::MAX);
            let dst = match dst {
                Some(v) => v,
                None => {
                    let tok = text.substring_char(a2, b2);
                    let msg = String::from_str("Invalid vertex id: ").concat(tok);
                    return Err(PregelError::Serialization(msg));
                },
            };
            let ghost before = acc@;
            acc.push((src, dst));
            proof {
                assert(acc@ == before + seq![(src, dst)]);
                match edges_from(sv, le + 1) {
                    Ok(rest) => {
                        assert(before + (seq![(src, dst)] + rest) =~= acc@ + rest);
                    },
                    Err(t) => {},
                }
            }
        }
        if le >= s.len() {
            proof {
                assert(edges_from(sv, le + 1) == Ok::<Seq<(VertexId, VertexId)>, Seq<char>>(Seq::empty()));
                assert(acc@ + Seq::<(VertexId, VertexId)>::empty() =~= acc@);
            }
            return Ok(acc);
        }
        start = le + 1;
    }
}

/// Whether `v` is an endpoint of some edge.
pub open spec fn is_endpoint(edges: Seq<(VertexId, VertexId)>, v: VertexId) -> bool {
    exists|i: int| 0 <= i < edges.len() && (#[trigger] edges[i].0 == v || edges[i].1 == v)
}

/// The targets of the edges that leave `v`, in edge order.
pub open spec fn out_neighbors(edges: Seq<(VertexId, VertexId)>, v: VertexId) -> Seq<VertexId> {
    edges.filter(leaves(v)).map_values(|e: (VertexId, VertexId)| e.1)
}

/// Whether an edge leaves `v`.
pub open spec fn leaves(v: VertexId) -> spec_fn((VertexId, VertexId)) -> bool {
    |e: (VertexId, VertexId)| e.0 == v
}

/// The graph of an edge list: every endpoint is a vertex, with the
/// targets of its outgoing edges in edge order.
pub open spec fn adjacency(edges: Seq<(VertexId, VertexId)>) -> Map<VertexId, Seq<VertexId>> {
    Map::new(|v: VertexId| is_endpoint(edges, v), |v: VertexId| out_neighbors(edges, v))
}

/// Adjacency lists as plain sequences.
pub open spec fn adj_view(m: Map<VertexId, Vec<VertexId>>) -> Map<VertexId, Seq<VertexId>> {
    m.map_values(|v: Vec<VertexId>| v@)
}

proof fn lemma_endpoint_push(pre: Seq<(VertexId, VertexId)>, x: (VertexId, VertexId), v: VertexId)
    ensures
        is_endpoint(pre.push(x), v) == (is_endpoint(pre, v) || x.0 == v || x.1 == v),
{
    let post = pre.push(x);
    if is_endpoint(pre, v) {
        let j = choose|j: int| 0 <= j < pre.len() && (#[trigger] pre[j].0 == v || pre[j].1 == v);
        assert(post[j] == pre[j]);
        assert(post[j].0 == v || post[j].1 == v);
    }
    if x.0 == v || x.1 == v {
        assert(post[pre.len() as int] == x);
        assert(post[pre.len() as int].0 == v || post[pre.len() as int].1 == v);
    }
    if is_endpoint(post, v) && !(x.0 == v || x.1 == v) {
        let j = choose|j: int| 0 <= j < post.len() && (#[trigger] post[j].0 == v || post[j].1 == v);
        if j == pre.len() {
            assert(post[j] == x);
        }
        assert(j < pre.len());
        assert(pre[j] == post[j]);
        assert(pre[j].0 == v || pre[j].1 == v);
    }
}

proof fn lemma_out_neighbors_push(pre: Seq<(VertexId, VertexId)>, x: (VertexId, VertexId), v: VertexId)
    ensures
        out_neighbors(pre.push(x), v) == if x.0 == v {
            out_neighbors(pre, v).push(x.1)
        } else {
            out_neighbors(pre, v)
        },
        !is_endpoint(pre, v) ==> out_neighbors(pre, v) == Seq::<VertexId>::empty(),
{
    let f = leaves(v);
    pre.lemma_filter_push(x, f);
    if x.0 == v {
        assert(out_neighbors(pre.push(x), v) =~= out_neighbors(pre, v).push(x.1));
    }
    if !is_endpoint(pre, v) {
        pre.filter_lemma(f);
        if pre.filter(f).len() > 0 {
            let e = pre.filter(f)[0];
            assert(f(e));
            assert(pre.filter(f).contains(e));
            pre.lemma_filter_contains_rev(f, e);
            let j = choose|j: int| 0 <= j < pre.len() && pre[j] == e;
            assert(pre[j].0 == v);
        }
        assert(out_neighbors(pre, v) =~= Seq::<VertexId>::empty());
    }
}

/// Build the adjacency lists of an edge list.
pub fn build_adjacency(edges: &Vec<(VertexId, VertexId)>) -> (r: HashMap<VertexId, Vec<VertexId>>)
    ensures
        adj_view(r@) == adjacency(edges@),
{
    let mut adj: HashMap<VertexId, Vec<VertexId>> = HashMap::new();
    let n = edges.len();
    for i in 0..n
        invariant
            n == edges@.len(),
            adj_view(adj@) == adjacency(edges@.take(i as int)),
    {
        let (src, dst) = edges[i];
        let ghost pre = edges@.take(i as int);
        let ghost post = edges@.take(i + 1);
        let ghost before = adj@;
        proof {
            assert(post =~= pre.push((src, dst)));
        }
        let mut targets = match adj.remove(&src) {
            Some(t) => t,
            None => Vec::new(),
        };
        let ghost old_targets = targets@;
        proof {
            assert(old_targets == if before.contains_key(src) { before[src]@ } else { Seq::<VertexId>::empty() });
        }
        targets.push(dst);
        adj.insert(src, targets);
        let ghost mid = adj@;
        assert(mid == before.insert(src, targets));
        if !adj.contains_key(&dst) {
            adj.insert(dst, Vec::new());
        }
        proof {
            assert(adj@.dom() =~= before.dom().insert(src).insert(dst));
            assert(adj@[src]@ == old_targets.push(dst));
            assert(forall|v: VertexId| v != src && v != dst && before.contains_key(v) ==> #[trigger] adj@[v] == before[v]);
            assert(dst != src && !before.contains_key(dst) ==> adj@[dst]@ == Seq::<VertexId>::empty());
            assert(dst != src && before.contains_key(dst) ==> adj@[dst] == before[dst]);
            let got = adj_view(adj@);
            let want = adjacency(post);
            assert forall|v: VertexId| #[trigger] got.contains_key(v) <==> want.contains_key(v) by {
                assert(adj_view(before).contains_key(v) == before.contains_key(v));
                assert(adjacency(pre).contains_key(v) == is_endpoint(pre, v));
                lemma_endpoint_push(pre, (src, dst), v);
            }
            assert forall|v: VertexId| got.contains_key(v) implies #[trigger] got[v] == want[v] by {
                assert(got[v] == adj@[v]@);
                lemma_endpoint_push(pre, (src, dst), v);
                lemma_out_neighbors_push(pre, (src, dst), v);
                if before.contains_key(v) {
                    assert(adj_view(before)[v] == before[v]@);
                    assert(adjacency(pre)[v] == out_neighbors(pre, v));
                    assert(adj_view(before).contains_key(v));
                } else {
                    assert(!adj_view(before).contains_key(v));
                    assert(!is_endpoint(pre, v));
                }
            }
            assert(got =~= want);
        }
    }
    assert(edges@.take(n as int) =~= edges@);
    adj
}

/// The initial value of a vertex for an algorithm: the given PageRank
/// value for PageRank, the vertex's own id for connected components, and
/// for shortest paths distance 0 at the source vertex 0 and the largest
/// `u64` (unreached) elsewhere, each encoded as `bincode` writes a `u64`.
pub open spec fn initial_value(algo: Algorithm, v: VertexId, pagerank: Seq<u8>) -> Seq<u8> {
    match algo {
        Algorithm::Pagerank => pagerank,
        Algorithm::ConnectedComponents => u64_le_bytes(v),
        Algorithm::ShortestPath => u64_le_bytes(if v == 0 { 0 } else { u64::MAX }),
    }
}

/// Computes the initial value of a vertex; `pagerank` is the encoded
/// initial rank (1/N as a float, computed by the caller).
pub fn initial_value_exec(algo: Algorithm, v: VertexId, pagerank: &Vec<u8>) -> (r: Vec<u8>)
    ensures
        r@ == initial_value(algo, v, pagerank@),
{
    match algo {
        Algorithm::Pagerank => copy_bytes(pagerank),
        Algorithm::ConnectedComponents => encode_u64(v),
        Algorithm::ShortestPath => {
            let dist: u64 = if v == 0 { 0 } else { u64::MAX };
            encode_u64(dist)
        },
    }
}

/// The vertices among `keys` that worker `w` owns, with their initial
/// values and their adjacency lists.
pub open spec fn assigned<P: PartitionStrategyImpl>(
    keys: Set<VertexId>,
    adj: Map<VertexId, Seq<VertexId>>,
    strategy: P,
    worker_count: usize,
    w: int,
    algo: Algorithm,
    pagerank: Seq<u8>,
) -> Map<VertexId, VertexDataView> {
    Map::new(
        |v: VertexId| keys.contains(v) && strategy.owner(v, worker_count) as int == w,
        |v: VertexId| VertexDataView { id: v, value: initial_value(algo, v, pagerank), edges: adj[v] },
    )
}

/// Under the hash strategy every vertex lands in exactly one partition:
/// the one its hash owner names, which is a worker of the cluster.
pub proof fn lemma_hash_partitions_cover(
    keys: Set<VertexId>,
    adj: Map<VertexId, Seq<VertexId>>,
    worker_count: usize,
    algo: Algorithm,
    pagerank: Seq<u8>,
    v: VertexId,
)
    requires
        0 < worker_count <= 0x1_0000_0000,
        keys.contains(v),
    ensures
        0 <= hash_owner(v, worker_count) < worker_count,
        assigned(keys, adj, HashPartition, worker_count, hash_owner(v, worker_count) as int, algo, pagerank).contains_key(v),
        forall|w: int| #[trigger] assigned(keys, adj, HashPartition, worker_count, w, algo, pagerank).contains_key(v)
            ==> w == hash_owner(v, worker_count) as int,
{
    lemma_hash_owner_in_range(v, v, worker_count);
}

/// Assign the vertices of a graph to `worker_count` partitions: each vertex
/// goes to the partition that the strategy names (vertices assigned to a
/// worker id outside the cluster are dropped), with its initial value and
/// its adjacency list.
pub fn partition_graph<P: PartitionStrategyImpl>(
    adj: &HashMap<VertexId, Vec<VertexId>>,
    worker_count: usize,
    strategy: &P,
    algo: Algorithm,
    pagerank: &Vec<u8>,
) -> (r: Vec<GraphPartition>)
    requires
        forall|v: VertexId| #[trigger] adj@.contains_key(v) ==> strategy.defined_at(v, worker_count),
    ensures
        r@.len() == worker_count,
        forall|w: int|
            0 <= w < worker_count ==> (#[trigger] r@[w]).vertex_map() == assigned(
                adj@.dom(),
                adj_view(adj@),
                *strategy,
                worker_count,
                w,
                algo,
                pagerank@,
            ),
        forall|w: int| 0 <= w < worker_count ==> keyed_by_id(#[trigger] r@[w].vertices@),
{
    let mut parts: Vec<GraphPartition> = Vec::new();
    for i in 0..worker_count
        invariant
            parts@.len() == i,
            forall|w: int| 0 <= w < i ==> (#[trigger] parts@[w]).vertices@ == Map::<VertexId, VertexData>::empty(),
    {
        parts.push(GraphPartition::new());
    }
    let ghost m = adj@;
    let ghost av = adj_view(adj@);
    let ghost s = vstd::std_specs::hash::spec_hash_map_iter(adj).remaining();
    let ghost mut done: Set<VertexId> = Set::empty();
    proof {
        assert forall|w: int| 0 <= w < worker_count implies (#[trigger] parts@[w]).vertex_map() == assigned(
            done, av, *strategy, worker_count, w, algo, pagerank@) by {
            assert(parts@[w].vertex_map() =~= assigned(done, av, *strategy, worker_count, w, algo, pagerank@));
        }
    }
    for (vid, edges) in it: adj.iter()
        invariant
            it.seq() == s,
            m == adj@,
            av == adj_view(adj@),
            forall|v: VertexId| #[trigger] adj@.contains_key(v) ==> strategy.defined_at(v, worker_count),
            parts@.len() == worker_count,
            s.len() == m.dom().len(),
            forall|i: int| 0 <= i < s.len() ==> m.contains_key(*(#[trigger] s[i]).0) && m[*s[i].0] == *s[i].1,
            forall|kk: VertexId| #[trigger] m.contains_key(kk) ==> s.contains((&kk, &m[kk])),
            s.no_duplicates(),
            forall|v: VertexId| #[trigger] done.contains(v) <==> exists|j: int| 0 <= j < it.index() && *s[j].0 == v,
            forall|w: int| 0 <= w < worker_count ==> (#[trigger] parts@[w]).vertex_map() == assigned(
                done, av, *strategy, worker_count, w, algo, pagerank@),
            forall|w: int| 0 <= w < worker_count ==> keyed_by_id(#[trigger] parts@[w].vertices@),
    {
        let ghost idx = it.index();
        let ghost old_done = done;
        let ghost old_parts = parts@;
        proof {
            assert(!old_done.contains(*vid)) by {
                if old_done.contains(*vid) {
                    let j = choose|j: int| 0 <= j < idx && *s[j].0 == *vid;
                    assert(m[*s[j].0] == *s[j].1);
                    assert(s[j] == s[idx]);
                }
            }
            done = done.insert(*vid);
            assert forall|v: VertexId| #[trigger] done.contains(v) <==> exists|j: int| 0 <= j < idx + 1 && *s[j].0 == v by {
                if v == *vid {
                    assert(*s[idx].0 == v);
                }
                if exists|j: int| 0 <= j < idx + 1 && *s[j].0 == v {
                    let j = choose|j: int| 0 <= j < idx + 1 && *s[j].0 == v;
                    if j < idx {
                        assert(old_done.contains(v));
                    }
                }
            }
        }
        proof {
            assert(m.contains_key(*s[idx].0));
            assert(s[idx] == (vid, edges));
        }
        let w = strategy.partition(*vid, worker_count) as usize;
        if w < parts.len() {
            let value = initial_value_exec(algo, *vid, pagerank);
            let data = VertexData { id: *vid, value, edges: copy_ids(edges) };
            let mut p = parts.remove(w);
            p.add_vertex(data);
            parts.insert(w, p);
            proof {
                assert forall|x: int| 0 <= x < worker_count implies (#[trigger] parts@[x]).vertex_map() == assigned(
                    done, av, *strategy, worker_count, x, algo, pagerank@) by {
                    if x == w {
                        assert(s[idx] == (vid, edges));
                        assert(m[*vid] == *edges);
                        assert(av[*vid] == edges@);
                        assert(parts@[x].vertices@ == old_parts[x].vertices@.insert(*vid, data));
                        assert(data@ == VertexDataView { id: *vid, value: initial_value(algo, *vid, pagerank@), edges: av[*vid] });
                        assert(strategy.owner(*vid, worker_count) as int == x);
                        let got = parts@[x].vertex_map();
                        let want = assigned(done, av, *strategy, worker_count, x, algo, pagerank@);
                        let prev = assigned(old_done, av, *strategy, worker_count, x, algo, pagerank@);
                        assert(old_parts[x].vertex_map() == prev);
                        assert forall|v: VertexId| #[trigger] got.contains_key(v) <==> want.contains_key(v) by {
                            assert(got.contains_key(v) == parts@[x].vertices@.contains_key(v));
                            assert(old_parts[x].vertex_map().contains_key(v) == old_parts[x].vertices@.contains_key(v));
                        }
                        assert forall|v: VertexId| got.contains_key(v) implies #[trigger] got[v] == want[v] by {
                            if v != *vid {
                                assert(old_parts[x].vertex_map().contains_key(v));
                                assert(got[v] == old_parts[x].vertices@[v]@);
                                assert(prev[v] == want[v]);
                            }
                        }
                        assert(got =~= want);
                    } else {
                        assert(parts@[x] == old_parts[x]);
                        assert(parts@[x].vertex_map() =~= assigned(done, av, *strategy, worker_count, x, algo, pagerank@));
                    }
                }
                assert forall|x: int| 0 <= x < worker_count implies keyed_by_id(#[trigger] parts@[x].vertices@) by {
                    if x != w {
                        assert(parts@[x] == old_parts[x]);
                    }
                }
            }
        } else {
            proof {
                assert forall|x: int| 0 <= x < worker_count implies (#[trigger] parts@[x]).vertex_map() == assigned(
                    done, av, *strategy, worker_count, x, algo, pagerank@) by {
                    assert(parts@[x].vertex_map() =~= assigned(done, av, *strategy, worker_count, x, algo, pagerank@));
                }
            }
        }
    }
    proof {
        assert(done =~= m.dom()) by {
            assert forall|v: VertexId| #[trigger] m.dom().contains(v) implies done.contains(v) by {
                assert(s.contains((&v, &m[v])));
                let j = choose|j: int| 0 <= j < s.len() && s[j] == (&v, &m[v]);
                assert(*s[j].0 == v);
            }
            assert forall|v: VertexId| done.contains(v) implies #[trigger] m.dom().contains(v) by {
                let j = choose|j: int| 0 <= j < s.len() && *s[j].0 == v;
                assert(m.contains_key(*s[j].0));
            }
        }
    }
    parts
}

/// Reset the vertex values of a partition for a new algorithm run: every
/// vertex gets the algorithm's initial value for its key; ids and edges
/// are unchanged.
pub fn reset_partition_for_algo(partition: &mut GraphPartition, algo: Algorithm, pagerank: &Vec<u8>)
    ensures
        final(partition).vertices@.dom() == old(partition).vertices@.dom(),
        forall|k: VertexId| #[trigger] old(partition).vertices@.contains_key(k) ==> {
            &&& final(partition).vertices@[k].id == old(partition).vertices@[k].id
            &&& final(partition).vertices@[k].edges@ == old(partition).vertices@[k].edges@
            &&& final(partition).vertices@[k].value@ == initial_value(algo, k, pagerank@)
        },
{
    let ghost m0 = partition.vertices@;
    let ghost s = vstd::std_specs::hash::spec_keys_iter(&partition.vertices).remaining();
    let mut keys: Vec<VertexId> = Vec::new();
    for k in it: partition.vertices.keys()
        invariant
            it.seq() == s,
            s.unref().to_set() == partition.vertices@.dom(),
            keys@ == s.unref().take(it.index() as int),
    {
        keys.push(*k);
        proof {
            assert(s.unref().take(it.index() + 1) =~= s.unref().take(it.index() as int).push(*k));
        }
    }
    proof {
        assert(keys@ =~= s.unref());
    }
    let n = keys.len();
    for i in 0..n
        invariant
            n == keys@.len(),
            keys@.to_set() == m0.dom(),
            partition.vertices@.dom() == m0.dom(),
            forall|k: VertexId| #[trigger] m0.contains_key(k) ==> {
                &&& partition.vertices@[k].id == m0[k].id
                &&& partition.vertices@[k].edges@ == m0[k].edges@
                &&& (keys@.take(i as int).contains(k) ==> partition.vertices@[k].value@ == initial_value(algo, k, pagerank@))
            },
    {
        let k = keys[i];
        assert(keys@.to_set().contains(k));
        let ghost before = partition.vertices@;
        let old_v = partition.vertices.remove(&k).unwrap();
        let value = initial_value_exec(algo, k, pagerank);
        partition.vertices.insert(k, VertexData { id: old_v.id, value, edges: old_v.edges });
        proof {
            assert(partition.vertices@.dom() =~= m0.dom());
            assert forall|kk: VertexId| #[trigger] m0.contains_key(kk) implies {
                &&& partition.vertices@[kk].id == m0[kk].id
                &&& partition.vertices@[kk].edges@ == m0[kk].edges@
                &&& (keys@.take(i + 1).contains(kk) ==> partition.vertices@[kk].value@ == initial_value(algo, kk, pagerank@))
            } by {
                if kk != k {
                    assert(partition.vertices@[kk] == before[kk]);
                    if keys@.take(i + 1).contains(kk) {
                        let t = keys@.take(i + 1);
                        let j = choose|j: int| 0 <= j < t.len() && #[trigger] t[j] == kk;
                        assert(j != i);
                        assert(keys@.take(i as int)[j] == kk);
                    }
                }
            }
        }
    }
    proof {
        assert(keys@.take(n as int) =~= keys@);
        assert forall|k: VertexId| #[trigger] m0.contains_key(k) implies keys@.contains(k) by {
            assert(keys@.to_set().contains(k));
        }
    }
}

/// The (vertex id, value) pairs of a partition that the algorithm's result
/// query asks for: for every built-in algorithm, every stored vertex once,
/// in the map's iteration order.
pub fn extract_partition_results(partition: &GraphPartition, algo: Algorithm) -> (r: Vec<(VertexId, Vec<u8>)>)
    ensures
        r@.len() == partition.vertices@.len(),
        forall|i: int| 0 <= i < r@.len() ==> partition.vertices@.contains_key(#[trigger] r@[i].0)
            && r@[i].1@ == partition.vertices@[r@[i].0].value@,
        forall|k: VertexId| #[trigger] partition.vertices@.contains_key(k) ==> exists|i: int| 0 <= i < r@.len() && #[trigger] r@[i].0 == k,
        forall|i: int, j: int| 0 <= i < j < r@.len() ==> #[trigger] r@[i].0 != #[trigger] r@[j].0,
{
    let meta = AlgoMetadata::for_algo(algo);
    let mut out: Vec<(VertexId, Vec<u8>)> = Vec::new();
    match &meta.query {
        ResultQuery::AllVertexValues => {
            let ghost m = partition.vertices@;
            let ghost s = vstd::std_specs::hash::spec_hash_map_iter(&partition.vertices).remaining();
            for (vid, v) in it: partition.vertices.iter()
                invariant
                    it.seq() == s,
                    m == partition.vertices@,
                    s.len() == m.dom().len(),
                    forall|i: int| 0 <= i < s.len() ==> m.contains_key(*(#[trigger] s[i]).0) && m[*s[i].0] == *s[i].1,
                    forall|kk: VertexId| #[trigger] m.contains_key(kk) ==> s.contains((&kk, &m[kk])),
                    s.no_duplicates(),
                    out@.len() == it.index(),
                    forall|i: int| 0 <= i < out@.len() ==> #[trigger] out@[i].0 == *s[i].0 && out@[i].1@ == s[i].1.value@,
            {
                let ghost idx = it.index();
                out.push((*vid, copy_bytes(&v.value)));
                proof {
                    assert(s[idx] == (vid, v));
                    assert(out@[idx].0 == *s[idx].0);
                }
            }
            proof {
                assert forall|i: int| 0 <= i < out@.len() implies m.contains_key(#[trigger] out@[i].0)
                    && out@[i].1@ == m[out@[i].0].value@ by {
                    assert(m.contains_key(*s[i].0));
                }
                assert forall|k: VertexId| #[trigger] m.contains_key(k) implies exists|i: int| 0 <= i < out@.len() && #[trigger] out@[i].0 == k by {
                    assert(s.contains((&k, &m[k])));
                    let i = choose|i: int| 0 <= i < s.len() && s[i] == (&k, &m[k]);
                    assert(out@[i].0 == k);
                }
                assert forall|i: int, j: int| 0 <= i < j < out@.len() implies #[trigger] out@[i].0 != #[trigger] out@[j].0 by {
                    if out@[i].0 == out@[j].0 {
                        assert(m.contains_key(*s[i].0));
                        assert(m.contains_key(*s[j].0));
                        assert(s[i] == s[j]);
                    }
                }
            }
        },
        ResultQuery::VertexSubset(ids) => {
            for i in 0..ids.len() {
                if let Some(v) = partition.vertices.get(&ids[i]) {
                    out.push((ids[i], copy_bytes(&v.value)));
                }
            }
        },
    }
    out
}

} // verus!
