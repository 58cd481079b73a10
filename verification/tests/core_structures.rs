use std::collections::HashMap;

use pregel::aggregator::AggregatorValues;
use pregel::algo::{AlgoMetadata, Algorithm, PostFunction, ResultQuery};
use pregel::checkpoint::{Checkpoint, CheckpointManager, Recovery, VertexState};
use pregel::config::PartitionConfig;
use pregel::coordinator::{Barrier, Coordinator, JobManager, WorkerInfo, WorkerRegistry};
use pregel::messaging::MessageBatch;
use pregel::partition::{
    load_strategy, partition, CustomPartition, HashPartition, LoadedStrategy, PartitionStrategy,
    PartitionStrategyImpl,
};
use pregel::sdk::{Context, Vertex};
use pregel::sort::sort_by_id;
use pregel::storage::{GraphPartition, VertexData};
use pregel::superstep::{RuntimeConfig, Superstep};
use pregel::table::NamedTable;
use pregel::types::Message;

#[test]
fn hash_partition_is_modulo() {
    assert_eq!(partition(0, 3), 0);
    assert_eq!(partition(7, 3), 1);
    assert_eq!(partition(u64::MAX, 2), 1);
    assert_eq!(HashPartition.partition(10, 4), 2);
    for v in 0..100u64 {
        assert!((partition(v, 7) as usize) < 7);
    }
}

#[test]
fn custom_partition_file_format() {
    let text = "# vertex worker\n1 0\n2 1   # trailing comment\n\n  3\t2\nbad line\n4 x\n2 3\n";
    let cp = CustomPartition::parse(text);
    assert_eq!(cp.partition(1, 4), 0);
    assert_eq!(cp.partition(2, 4), 3);
    assert_eq!(cp.partition(3, 4), 2);
    // not in the file: hash fallback
    assert_eq!(cp.partition(4, 4), 0);
    assert_eq!(cp.partition(9, 4), 1);
}

#[test]
fn custom_partition_from_map() {
    let mut m = HashMap::new();
    m.insert(5u64, 1u32);
    let cp = CustomPartition::from_map(m);
    assert_eq!(cp.partition(5, 3), 1);
    assert_eq!(cp.partition(4, 3), 1);
    assert_eq!(cp.partition(6, 3), 0);
}

#[test]
fn strategy_from_config_and_loading() {
    assert!(matches!(PartitionStrategy::from(None), PartitionStrategy::Hash));
    assert!(matches!(PartitionStrategy::from(Some(PartitionConfig::Hash)), PartitionStrategy::Hash));
    match PartitionStrategy::from(Some(PartitionConfig::CustomFile { path: "p.txt".into() })) {
        PartitionStrategy::CustomFile { path } => assert_eq!(path, "p.txt"),
        _ => panic!("expected a custom strategy"),
    }
    assert!(matches!(PartitionStrategy::default(), PartitionStrategy::Hash));
    let hash = load_strategy(&PartitionStrategy::Hash, "1 1\n");
    assert!(matches!(hash, LoadedStrategy::Hash(_)));
    assert_eq!(hash.partition(1, 2), 1);
    let custom = load_strategy(&PartitionStrategy::CustomFile { path: "x".into() }, "1 0\n");
    assert!(matches!(custom, LoadedStrategy::Custom(_)));
    assert_eq!(custom.partition(1, 2), 0);
    assert_eq!(custom.partition(3, 2), 1);
}

#[test]
fn algorithm_names() {
    assert_eq!(Algorithm::parse("pagerank"), Ok(Algorithm::Pagerank));
    assert_eq!(Algorithm::parse("PR"), Ok(Algorithm::Pagerank));
    assert_eq!(Algorithm::parse("Connected_Components"), Ok(Algorithm::ConnectedComponents));
    assert_eq!(Algorithm::parse("cc"), Ok(Algorithm::ConnectedComponents));
    assert_eq!(Algorithm::parse("shortest_path"), Ok(Algorithm::ShortestPath));
    assert_eq!(Algorithm::parse("SSSP"), Ok(Algorithm::ShortestPath));
    assert_eq!(Algorithm::parse("sp"), Ok(Algorithm::ShortestPath));
    // KELVIN SIGN lowercases to 'k'
    assert_eq!(Algorithm::parse("pageran\u{212A}"), Ok(Algorithm::Pagerank));
    assert_eq!(Algorithm::parse("bfs"), Err("Unknown algorithm: bfs".to_string()));
    assert_eq!("cc".parse::<Algorithm>(), Ok(Algorithm::ConnectedComponents));
    assert_eq!(Algorithm::default(), Algorithm::Pagerank);
}

#[test]
fn algorithm_metadata() {
    let pr = AlgoMetadata::for_algo(Algorithm::Pagerank);
    assert_eq!(pr.query, ResultQuery::AllVertexValues);
    assert_eq!(pr.post, PostFunction::Concat);
    assert_eq!(AlgoMetadata::for_algo(Algorithm::ConnectedComponents).post, PostFunction::ConcatAndSort);
    assert_eq!(AlgoMetadata::for_algo(Algorithm::ShortestPath).post, PostFunction::ConcatAndSort);
}

fn vd(id: u64, value: Vec<u8>, edges: Vec<u64>) -> VertexData {
    VertexData { id, value, edges }
}

#[test]
fn partition_add_then_get() {
    let mut p = GraphPartition::new();
    assert_eq!(p.vertex_count(), 0);
    p.add_vertex(vd(1, vec![1], vec![2]));
    p.add_vertex(vd(2, vec![2], vec![]));
    p.add_vertex(vd(1, vec![9], vec![3]));
    assert_eq!(p.vertex_count(), 2);
    let v = p.get_vertex(1).unwrap();
    assert_eq!(v.value, vec![9]);
    assert_eq!(v.edges, vec![3]);
    assert!(p.get_vertex(3).is_none());
}

#[test]
fn checkpoint_round_trip() {
    let mut p = GraphPartition::new();
    p.add_vertex(vd(1, vec![1, 2], vec![2, 3]));
    p.add_vertex(vd(2, vec![], vec![1]));
    let ck = Checkpoint::from_partition(7, &p);
    assert_eq!(ck.superstep, 7);
    assert_eq!(ck.vertices.len(), 2);
    let restored = Recovery::restore_partition(ck);
    assert_eq!(restored.vertex_count(), 2);
    let a = restored.get_vertex(1).unwrap();
    assert_eq!((a.id, a.value.clone(), a.edges.clone()), (1, vec![1, 2], vec![2, 3]));
    let b = restored.get_vertex(2).unwrap();
    assert_eq!((b.id, b.value.clone(), b.edges.clone()), (2, vec![], vec![1]));
}

#[test]
fn vertex_state_from_data() {
    let s = VertexState::from(vd(4, vec![5], vec![6]));
    assert_eq!((s.id, s.value, s.edges), (4, vec![5], vec![6]));
}

#[test]
fn checkpoint_file_names() {
    let m = CheckpointManager::new("/tmp/ck".to_string());
    assert_eq!(m.checkpoint_path(3, 12), "/tmp/ck/worker_3_step_12.ckpt");
}

#[test]
fn barrier_waits_for_every_worker() {
    let mut b = Barrier::new(vec![0, 1, 2]);
    assert!(!b.all_reported());
    b.report(0);
    b.report(2);
    b.report(0);
    assert!(!b.all_reported());
    b.report(1);
    assert!(b.all_reported());
    b.reset();
    assert!(!b.all_reported());
    let empty = Barrier::new(vec![]);
    assert!(empty.all_reported());
}

fn info(id: u32) -> WorkerInfo {
    WorkerInfo { id, address: format!("127.0.0.1:{}", 5001 + id), vertex_count: 10 }
}

#[test]
fn registry_and_coordinator() {
    let mut r = WorkerRegistry::new();
    r.register(0, info(0));
    r.register(1, info(1));
    r.register(0, info(0));
    assert_eq!(r.worker_count(), 2);
    assert_eq!(r.get(1).unwrap().address, "127.0.0.1:5002");
    assert!(r.get(7).is_none());
    let mut c = Coordinator::new();
    assert_eq!(c.superstep(), 0);
    c.register_worker(3, info(3));
    c.advance_superstep();
    c.advance_superstep();
    assert_eq!(c.superstep(), 2);
    assert_eq!(Coordinator::default().superstep(), 0);
}

#[test]
fn job_manager_registers_jobs() {
    let mut jm = JobManager::new();
    jm.register("a".into(), vec![0, 1]);
    jm.register("b".into(), vec![2]);
    jm.register("a".into(), vec![5]);
    assert_eq!(jm.get("a").unwrap().workers, vec![5]);
    assert_eq!(jm.get("b").unwrap().workers, vec![2]);
    assert!(jm.get("c").is_none());
}

#[test]
fn aggregator_set_then_get() {
    let mut a = AggregatorValues::new();
    assert!(a.get("sum").is_none());
    a.set("sum", vec![1, 2]);
    a.set("max", vec![3]);
    a.set("sum", vec![4]);
    assert_eq!(a.get("sum"), Some(&[4u8][..]));
    assert_eq!(a.get("max"), Some(&[3u8][..]));
    assert!(AggregatorValues::default().get("max").is_none());
}

#[test]
fn named_table_replaces_by_name() {
    let mut t: NamedTable<u32> = NamedTable::new();
    t.insert("x".into(), 1);
    t.insert("y".into(), 2);
    t.insert("x".into(), 3);
    assert_eq!(t.len(), 2);
    assert_eq!(t.get("x"), Some(&3));
    assert_eq!(t.get("z"), None);
}

#[test]
fn context_collects_messages() {
    let mut ctx: Context<u64> = Context::new(3, 10);
    assert_eq!(ctx.superstep(), 3);
    assert_eq!(ctx.total_vertices(), 10);
    ctx.send(1, 5);
    ctx.aggregate("ignored", 1.5f64);
    ctx.send(2, 6);
    assert_eq!(ctx.outgoing, vec![(1, 5), (2, 6)]);
    let v = Vertex::new(9, 1u64, vec![1, 2]);
    assert_eq!((v.id, v.value, v.edges), (9, 1, vec![1, 2]));
}

#[test]
fn message_batches() {
    let mut b = MessageBatch::new(2);
    assert!(b.is_empty());
    b.push(Message { source: 1, target: 4, payload: vec![7] });
    assert!(!b.is_empty());
    assert_eq!(b.target_worker, 2);
    assert_eq!(b.messages.len(), 1);
}

#[test]
fn supersteps_and_runtime_defaults() {
    let s = Superstep::new(4);
    assert_eq!(s.next().step, 5);
    let rc = RuntimeConfig::default();
    assert_eq!(rc.worker_count, 4);
    assert_eq!(rc.checkpoint_interval, Some(10));
}

#[test]
fn sort_by_id_orders_pairs() {
    let v = vec![(3u64, "c"), (1, "a"), (2, "b"), (1, "d")];
    let s = sort_by_id(v);
    let ids: Vec<u64> = s.iter().map(|p| p.0).collect();
    assert_eq!(ids, vec![1, 1, 2, 3]);
    assert_eq!(s.len(), 4);
}
