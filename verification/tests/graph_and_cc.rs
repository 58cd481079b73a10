
use pregel::algo::Algorithm;
use pregel::cc::{cc_compute, cc_wire_compute, WasmCc};
use pregel::errors::PregelError;
use pregel::graph_loader::{
    build_adjacency, extract_partition_results, initial_value_exec, parse_edge_list, partition_graph,
    reset_partition_for_algo,
};
use pregel::partition::{load_strategy, HashPartition, PartitionStrategy};
use pregel::sdk::{Context, Vertex, VertexProgram};
use pregel::storage::{GraphPartition, VertexData};
use pregel::types::ComputeInput;

fn le(v: u64) -> Vec<u8> {
    v.to_le_bytes().to_vec()
}

#[test]
fn edge_list_parsing() {
    let text = "# graph\n1 2\n2 3 0.5\n\n  4\t1  # comment\nlonely\n+5 1\n";
    let edges = parse_edge_list(text).unwrap();
    assert_eq!(edges, vec![(1, 2), (2, 3), (4, 1), (5, 1)]);
    assert_eq!(parse_edge_list("").unwrap(), vec![]);
}

#[test]
fn edge_list_rejects_bad_ids() {
    match parse_edge_list("1 2\nx 3\n") {
        Err(PregelError::Serialization(m)) => assert_eq!(m, "Invalid vertex id: x"),
        other => panic!("unexpected {:?}", other),
    }
    match parse_edge_list("1 -2\n") {
        Err(PregelError::Serialization(m)) => assert_eq!(m, "Invalid vertex id: -2"),
        other => panic!("unexpected {:?}", other),
    }
    match parse_edge_list("1 18446744073709551616\n") {
        Err(PregelError::Serialization(m)) => assert_eq!(m, "Invalid vertex id: 18446744073709551616"),
        other => panic!("unexpected {:?}", other),
    }
}

#[test]
fn adjacency_keeps_targets_and_adds_sinks() {
    let adj = build_adjacency(&vec![(1, 2), (1, 3), (3, 1), (1, 2)]);
    assert_eq!(adj.len(), 3);
    assert_eq!(adj[&1], vec![2, 3, 2]);
    assert_eq!(adj[&2], Vec::<u64>::new());
    assert_eq!(adj[&3], vec![1]);
}

#[test]
fn initial_values_per_algorithm() {
    let pr = 0.25f64.to_le_bytes().to_vec();
    assert_eq!(initial_value_exec(Algorithm::Pagerank, 3, &pr), pr);
    assert_eq!(initial_value_exec(Algorithm::ConnectedComponents, 3, &pr), le(3));
    assert_eq!(initial_value_exec(Algorithm::ShortestPath, 0, &pr), le(0));
    assert_eq!(initial_value_exec(Algorithm::ShortestPath, 9, &pr), le(u64::MAX));
}

#[test]
fn graph_is_partitioned_by_hash() {
    let adj = build_adjacency(&vec![(0, 1), (1, 2), (2, 3)]);
    let parts = partition_graph(&adj, 2, &HashPartition, Algorithm::ConnectedComponents, &vec![]);
    assert_eq!(parts.len(), 2);
    assert_eq!(parts[0].vertex_count(), 2);
    assert_eq!(parts[1].vertex_count(), 2);
    let v1 = parts[1].get_vertex(1).unwrap();
    assert_eq!(v1.value, le(1));
    assert_eq!(v1.edges, vec![2]);
    assert!(parts[0].get_vertex(1).is_none());
    let v3 = parts[1].get_vertex(3).unwrap();
    assert!(v3.edges.is_empty());
}

#[test]
fn reset_and_extract_results() {
    let mut p = GraphPartition::new();
    p.add_vertex(VertexData { id: 0, value: vec![1], edges: vec![1] });
    p.add_vertex(VertexData { id: 5, value: vec![2], edges: vec![] });
    reset_partition_for_algo(&mut p, Algorithm::ShortestPath, &vec![]);
    assert_eq!(p.get_vertex(0).unwrap().value, le(0));
    assert_eq!(p.get_vertex(5).unwrap().value, le(u64::MAX));
    assert_eq!(p.get_vertex(0).unwrap().edges, vec![1]);
    let mut results = extract_partition_results(&p, Algorithm::ShortestPath);
    results.sort();
    assert_eq!(results, vec![(0, le(0)), (5, le(u64::MAX))]);
}

#[test]
fn cc_first_step_sends_along_edges() {
    let mut v = Vertex::new(4, 4u64, vec![1, 7]);
    let mut ctx: Context<u64> = Context::new(0, 8);
    cc_compute(&mut v, &[], &mut ctx);
    assert_eq!(v.value, 4);
    assert_eq!(ctx.outgoing, vec![(1, 4), (7, 4)]);
}

#[test]
fn cc_adopts_smaller_ids_and_tells_everyone() {
    let mut v = Vertex::new(4, 4u64, vec![1, 7, 1]);
    let mut ctx: Context<u64> = Context::new(1, 8);
    cc_compute(&mut v, &[(9, 2), (7, 3)], &mut ctx);
    assert_eq!(v.value, 2);
    let mut targets: Vec<u64> = ctx.outgoing.iter().map(|m| m.0).collect();
    targets.sort();
    assert_eq!(targets, vec![1, 7, 9]);
    assert!(ctx.outgoing.iter().all(|m| m.1 == 2));
}

#[test]
fn cc_answers_larger_senders_only() {
    let mut v = Vertex::new(2, 2u64, vec![5]);
    let mut ctx: Context<u64> = Context::new(1, 8);
    cc_compute(&mut v, &[(5, 5), (6, 2), (8, 9), (5, 7)], &mut ctx);
    assert_eq!(v.value, 2);
    let mut targets: Vec<u64> = ctx.outgoing.iter().map(|m| m.0).collect();
    targets.sort();
    assert_eq!(targets, vec![5, 8]);
}

#[test]
fn cc_stays_silent_when_nothing_changes() {
    let mut v = Vertex::new(2, 2u64, vec![5]);
    let mut ctx: Context<u64> = Context::new(1, 8);
    cc_compute(&mut v, &[(5, 2), (6, 2)], &mut ctx);
    assert_eq!(v.value, 2);
    assert!(ctx.outgoing.is_empty());
}

#[test]
fn cc_as_vertex_program() {
    let mut prog = WasmCc::default();
    let mut v = Vertex::new(3, 3u64, vec![0]);
    let mut ctx: Context<u64> = Context::new(2, 4);
    prog.compute(&mut v, &[(0, 0)], &mut ctx);
    assert_eq!(v.value, 0);
    assert_eq!(ctx.outgoing, vec![(0, 0)]);
}

#[test]
fn cc_wire_superstep_zero_sends_own_id() {
    let input = ComputeInput {
        vertex_id: 7,
        value: vec![],
        edges: vec![1, 2],
        messages: vec![],
        superstep: 0,
        total_vertices: 3,
    };
    let out = cc_wire_compute(&input, 0);
    assert_eq!(out.new_value, Some(le(7)));
    assert_eq!(out.outgoing, vec![(1, le(7)), (2, le(7))]);
}

#[test]
fn cc_wire_decodes_values_and_messages() {
    let input = ComputeInput {
        vertex_id: 7,
        value: le(5),
        edges: vec![],
        messages: vec![(1, le(3)), (2, vec![1, 2]), (4, le(9))],
        superstep: 1,
        total_vertices: 3,
    };
    let out = cc_wire_compute(&input, 1);
    assert_eq!(out.new_value, Some(le(3)));
    let mut targets: Vec<u64> = out.outgoing.iter().map(|m| m.0).collect();
    targets.sort();
    assert_eq!(targets, vec![1, 4]);
    assert!(out.outgoing.iter().all(|m| m.1 == le(3)));
}

#[test]
fn custom_strategy_needs_no_workers_for_mapped_vertices() {
    let strategy = load_strategy(&PartitionStrategy::CustomFile { path: "p".into() }, "1 0\n2 5\n");
    assert!(strategy.defines(1, 0));
    assert!(!strategy.defines(3, 0));
    assert!(strategy.defines(3, 2));
    let adj = build_adjacency(&vec![(1, 2)]);
    let parts = partition_graph(&adj, 0, &strategy, Algorithm::ConnectedComponents, &vec![]);
    assert!(parts.is_empty());
    let parts = partition_graph(&adj, 2, &strategy, Algorithm::ConnectedComponents, &vec![]);
    assert_eq!(parts[0].vertex_count(), 1);
    assert_eq!(parts[1].vertex_count(), 0);
}

#[test]
fn storage_partition_is_the_hash_owner() {
    for v in 0..50u64 {
        assert_eq!(pregel::storage::partition(v, 7), pregel::partition::partition(v, 7));
    }
}
