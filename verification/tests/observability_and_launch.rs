use pregel::launch::{
    coordinator_options, CoordinatorOptions,
    coordinator_args, host_port, jobs_url, listen_port, metrics_port, session_url, session_worker_args,
    submit_worker_args,
};
use pregel::observability::{
    metric_update, CompositeObserver, Metric, NoopObserver, ObservableEvent, ObserverBackend, PrintObserver,
};

#[test]
fn summary_events_render_at_every_level() {
    let p = PrintObserver::new(1);
    let line = "─".repeat(60);
    assert_eq!(
        p.render(&ObservableEvent::SuperstepStarted { worker_id: 2, superstep: 5 }).unwrap(),
        format!("\n{line}\n  [worker 2] SUPERSTEP 5\n{line}\n")
    );
    assert_eq!(
        p.render(&ObservableEvent::SuperstepCompleted { worker_id: 0, superstep: 3, duration_ms: 17 }).unwrap(),
        "  [worker 0] ✓ step 3 done (17ms)\n\n"
    );
    assert_eq!(
        p.render(&ObservableEvent::MessagesSent { worker_id: 1, count: 4, bytes: 128 }).unwrap(),
        "  [worker 1]   → SENT: 4 msgs (128 B)\n"
    );
    assert_eq!(
        p.render(&ObservableEvent::VerticesComputed { worker_id: 1, count: 9 }).unwrap(),
        "  [worker 1]   computed 9 vertices\n"
    );
    assert_eq!(
        p.render(&ObservableEvent::CheckpointSaved { worker_id: 3, superstep: 10 }).unwrap(),
        "  [worker 3]   💾 checkpoint saved @ step 10\n"
    );
}

#[test]
fn snapshots_only_at_level_two() {
    let summary = PrintObserver::new(1);
    let full = PrintObserver::new(2);
    let inbox = ObservableEvent::InboxSnapshot {
        worker_id: 0,
        superstep: 1,
        items: vec![(5, vec!["1".to_string(), "2".to_string()]), (6, vec![])],
    };
    assert!(summary.render(&inbox).is_none());
    assert_eq!(
        full.render(&inbox).unwrap(),
        "  [worker 0] phase: RECEIVED (inbox for step 1)\n      v5 ← [1, 2]\n      v6 ← []\n"
    );
    let empty = ObservableEvent::InboxSnapshot { worker_id: 0, superstep: 1, items: vec![] };
    assert_eq!(full.render(&empty).unwrap(), "  [worker 0] phase: RECEIVED (inbox for step 1)\n      (empty)\n");
    let state = ObservableEvent::VertexSnapshot {
        worker_id: 1,
        superstep: 2,
        vertices: vec![(3, "0.5".to_string(), vec![1, 2]), (4, "x".to_string(), vec![])],
    };
    assert_eq!(
        full.render(&state).unwrap(),
        "  [worker 1] phase: STATE (vertices @ step 2)\n      v3 = 0.5  edges:[1, 2]\n      v4 = x  edges:[]\n"
    );
    let drained = ObservableEvent::BatchesReceived { worker_id: 1, superstep: 4, batch_count: 2, message_count: 7 };
    assert!(summary.render(&drained).is_none());
    assert_eq!(
        full.render(&drained).unwrap(),
        "  [worker 1] phase: DRAINED from network → 2 batches, 7 msgs (for step 4)\n"
    );
    let marker = ObservableEvent::PhaseMarker { worker_id: 0, phase: "report", superstep: 8 };
    assert_eq!(full.render(&marker).unwrap(), "  [worker 0] DEBUG: report (step 8)\n");
    let transport = ObservableEvent::TransportDebug {
        worker_id: 0,
        target_worker: 1,
        transport: "tcp",
        phase: "connect_done",
        addr: "127.0.0.1:5002".to_string(),
    };
    assert!(summary.render(&transport).is_none());
    assert_eq!(full.render(&transport).unwrap(), "  [worker 0] tcp connect_done → worker 1 (127.0.0.1:5002)\n");
}

#[test]
fn outgoing_snapshot_is_sorted_stably() {
    let full = PrintObserver::new(2);
    let out = ObservableEvent::OutgoingSnapshot {
        worker_id: 0,
        superstep: 3,
        batches: vec![
            (1, vec![(9, "a".to_string()), (2, "b".to_string())]),
            (0, vec![(7, "c".to_string())]),
            (1, vec![(2, "d".to_string())]),
        ],
    };
    assert_eq!(
        full.render(&out).unwrap(),
        "  [worker 0] phase: SENT (outgoing @ step 3)\n      → worker 0 v7: c\n      → worker 1 v2: b\n      → worker 1 v2: d\n      → worker 1 v9: a\n"
    );
    let none = ObservableEvent::OutgoingSnapshot { worker_id: 0, superstep: 3, batches: vec![] };
    assert_eq!(full.render(&none).unwrap(), "  [worker 0] phase: SENT (outgoing @ step 3)\n      (none)\n");
    let hollow = ObservableEvent::OutgoingSnapshot { worker_id: 0, superstep: 3, batches: vec![(1, vec![])] };
    assert_eq!(full.render(&hollow).unwrap(), "  [worker 0] phase: SENT (outgoing @ step 3)\n");
}

#[test]
fn noop_observer_accepts_events() {
    NoopObserver.record(ObservableEvent::VerticesComputed { worker_id: 0, count: 1 });
}

#[test]
fn metric_updates() {
    let u = metric_update(&ObservableEvent::SuperstepCompleted { worker_id: 12, superstep: 1, duration_ms: 250 }).unwrap();
    assert_eq!((u.metric, u.worker_label.as_str(), u.amount), (Metric::SuperstepDuration, "12", 250));
    let u = metric_update(&ObservableEvent::MessagesSent { worker_id: 1, count: 40, bytes: 9 }).unwrap();
    assert_eq!((u.metric, u.worker_label.as_str(), u.amount), (Metric::MessagesSent, "1", 40));
    let u = metric_update(&ObservableEvent::VerticesComputed { worker_id: 2, count: 5 }).unwrap();
    assert_eq!((u.metric, u.amount), (Metric::VerticesComputed, 5));
    let u = metric_update(&ObservableEvent::CheckpointSaved { worker_id: 2, superstep: 5 }).unwrap();
    assert_eq!((u.metric, u.amount), (Metric::CheckpointsSaved, 1));
    assert!(metric_update(&ObservableEvent::SuperstepStarted { worker_id: 2, superstep: 5 }).is_none());
    assert!(metric_update(&ObservableEvent::PhaseMarker { worker_id: 2, phase: "x", superstep: 5 }).is_none());
}

#[test]
fn addresses_and_urls() {
    assert_eq!(host_port("127.0.0.1", 5000), "127.0.0.1:5000");
    assert_eq!(session_url("localhost"), "http://localhost:5100");
    assert_eq!(jobs_url("http://h:5100"), "http://h:5100/jobs");
    assert_eq!(jobs_url("http://h:5100///"), "http://h:5100/jobs");
    assert_eq!(jobs_url(""), "/jobs");
}

#[test]
fn ports_follow_the_worker_index() {
    assert_eq!(listen_port(0), 5001);
    assert_eq!(listen_port(3), 5004);
    assert_eq!(listen_port(65536), 5001);
    assert_eq!(metrics_port(9090, 2), 9092);
}

fn strs(v: &[&str]) -> Vec<String> {
    v.iter().map(|s| s.to_string()).collect()
}

#[test]
fn coordinator_arguments() {
    assert_eq!(coordinator_args("127.0.0.1:5000", 3, None, 0), strs(&["127.0.0.1:5000", "3"]));
    assert_eq!(
        coordinator_args("h:5000", 2, Some(5100), 1),
        strs(&["h:5000", "2", "--http-port", "5100", "--verbose"])
    );
    assert_eq!(coordinator_args("h:5000", 2, None, 2), strs(&["h:5000", "2", "--verbose=2"]));
}

#[test]
fn worker_arguments() {
    assert_eq!(
        session_worker_args(1, "h:5000", "g.txt", 2, "tcp", Some(9100), 2),
        strs(&["1", "h:5000", "g.txt", "2", "5002", "--session", "--transport", "tcp", "--metrics-port", "9101", "--verbose=2"])
    );
    assert_eq!(
        submit_worker_args(0, "h:5000", "g.txt", 2, "cc", "quic", Some("a.wasm"), Some("/ck"), None, 1),
        strs(&[
            "0", "h:5000", "g.txt", "2", "5001", "--algo", "cc", "--transport", "quic", "--program", "a.wasm",
            "--checkpoint-dir", "/ck", "--verbose"
        ])
    );
    assert_eq!(
        submit_worker_args(2, "h:5000", "g", 3, "pagerank", "tcp", None, None, None, 0),
        strs(&["2", "h:5000", "g", "3", "5003", "--algo", "pagerank", "--transport", "tcp"])
    );
}

#[test]
fn coordinator_command_line() {
    let d = coordinator_options(&strs(&["pregel-coordinator"])).unwrap();
    assert_eq!(
        d,
        CoordinatorOptions { worker_count: 4, verbose: false, http_port: None, worker_timeout_secs: 60 }
    );
    let o = coordinator_options(&strs(&[
        "c", "127.0.0.1:5000", "3", "--http-port", "5100", "--verbose", "--worker-timeout", "+9", "--http-port",
    ]))
    .unwrap();
    assert_eq!(
        o,
        CoordinatorOptions { worker_count: 3, verbose: true, http_port: Some(5100), worker_timeout_secs: 9 }
    );
    // "--verbose=2" does not switch verbose output on
    assert!(!coordinator_options(&strs(&["c", "a", "2", "--verbose=2"])).unwrap().verbose);
    assert!(coordinator_options(&strs(&["c", "a", "-v"])).is_err());
    let e = coordinator_options(&strs(&["c", "a", "two"])).unwrap_err();
    assert_eq!(e.to_string(), "invalid digit found in string");
    let e = coordinator_options(&strs(&["c", "a", "2", "--http-port", "70000"])).unwrap_err();
    assert_eq!(e.to_string(), "number too large to fit in target type");
    assert!(coordinator_options(&strs(&["c", "a", "2", "--worker-timeout", ""])).is_err());
}

struct CountingBackend(std::sync::Mutex<Vec<String>>);

impl ObserverBackend for CountingBackend {
    fn record(&self, event: ObservableEvent) {
        self.0.lock().unwrap().push(format!("{:?}", event));
    }
}

#[test]
fn composite_observer_forwards_to_every_backend() {
    let a = std::sync::Arc::new(CountingBackend(std::sync::Mutex::new(Vec::new())));
    let b = std::sync::Arc::new(CountingBackend(std::sync::Mutex::new(Vec::new())));
    let c = CompositeObserver { backends: vec![a.clone(), b.clone()] };
    c.record(ObservableEvent::VerticesComputed { worker_id: 1, count: 2 });
    c.record(ObservableEvent::CheckpointSaved { worker_id: 1, superstep: 3 });
    assert_eq!(a.0.lock().unwrap().len(), 2);
    assert_eq!(*a.0.lock().unwrap(), *b.0.lock().unwrap());
}
