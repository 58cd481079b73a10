//! Observability events and their human-readable rendering.
//!
//! Workers and the coordinator describe what they do as [`ObservableEvent`]s
//! handed to an [`ObserverBackend`]. Events are ignored by default
//! ([`NoopObserver`]); [`PrintObserver`] renders each one as a block of text
//! for stderr: level 1 shows the summary events, level 2 adds full dumps of
//! the inbox, the vertex states and the outgoing messages.

use vstd::prelude::*;
use vstd::string::*;
use crate::text::{decimal, u64_to_decimal};

verus! {

/// Event recorded by an observer.
#[derive(Debug, Clone)]
pub enum ObservableEvent {
    SuperstepStarted { worker_id: u32, superstep: u64 },
    SuperstepCompleted { worker_id: u32, superstep: u64, duration_ms: u64 },
    MessagesSent { worker_id: u32, count: usize, bytes: usize },
    VerticesComputed { worker_id: u32, count: usize },
    CheckpointSaved { worker_id: u32, superstep: u64 },
    /// Inbox contents at the start of a superstep: (target vertex, formatted payloads).
    InboxSnapshot { worker_id: u32, superstep: u64, items: Vec<(u64, Vec<String>)> },
    /// Vertex states of the worker's partition: (id, formatted value, edges).
    VertexSnapshot { worker_id: u32, superstep: u64, vertices: Vec<(u64, String, Vec<u64>)> },
    /// Outgoing messages grouped by target worker: (target worker, [(target vertex, formatted payload)]).
    OutgoingSnapshot { worker_id: u32, superstep: u64, batches: Vec<(u32, Vec<(u64, String)>)> },
    /// Message batches received from the network before a superstep.
    BatchesReceived { worker_id: u32, superstep: u64, batch_count: usize, message_count: usize },
    /// Progress through send, report and advance.
    PhaseMarker { worker_id: u32, phase: &'static str, superstep: u64 },
    /// Transport-level progress (connect, open, write, ...).
    TransportDebug {
        worker_id: u32,
        target_worker: u32,
        transport: &'static str,
        phase: &'static str,
        addr: String,
    },
}

/// A sink for events.
pub trait ObserverBackend: Send + Sync {
    fn record(&self, event: ObservableEvent);
}

/// Observer that ignores every event.
#[derive(Clone, Default)]
pub struct NoopObserver;

impl ObserverBackend for NoopObserver {
    fn record(&self, event: ObservableEvent) {
    }
}

/// Forwards every event to each of several backends, in order.
pub struct CompositeObserver {
    pub backends: Vec<std::sync::Arc<dyn ObserverBackend>>,
}

impl ObserverBackend for CompositeObserver {
    fn record(&self, event: ObservableEvent) {
        for i in 0..self.backends.len() {
            self.backends[i].record(event.clone());
        }
    }
}

/// Observer that prints events for people: level 1 is the summary, level 2
/// adds the snapshots and debug markers.
#[derive(Clone)]
pub struct PrintObserver {
    pub level: u8,
}

// ---------------------------------------------------------------------------
// The text of each event
// ---------------------------------------------------------------------------

/// `s` repeated `n` times.
pub open spec fn repeat(s: Seq<char>, n: nat) -> Seq<char>
    decreases n,
{
    if n == 0 {
        Seq::empty()
    } else {
        repeat(s, (n - 1) as nat) + s
    }
}

/// The horizontal rule framing the start of a superstep.
pub open spec fn rule() -> Seq<char> {
    repeat("─"@, 60)
}

/// The items joined with `sep` between them.
pub open spec fn join(items: Seq<Seq<char>>, sep: Seq<char>) -> Seq<char>
    decreases items.len(),
{
    if items.len() == 0 {
        Seq::empty()
    } else if items.len() == 1 {
        items[0]
    } else {
        join(items.drop_last(), sep) + sep + items.last()
    }
}

/// The opening of every line: `  [worker W]`.
pub open spec fn head(worker_id: u32) -> Seq<char> {
    "  [worker "@ + decimal(worker_id as nat) + "]"@
}

/// The views of a list of strings.
pub open spec fn views(v: Seq<String>) -> Seq<Seq<char>> {
    v.map_values(|s: String| s@)
}

/// One inbox line: `      vT ← [p1, p2]`.
pub open spec fn inbox_line(target: u64, payloads: Seq<String>) -> Seq<char> {
    "      v"@ + decimal(target as nat) + " ← ["@ + join(views(payloads), ", "@) + "]\n"@
}

pub open spec fn inbox_lines(items: Seq<(u64, Vec<String>)>) -> Seq<char>
    decreases items.len(),
{
    if items.len() == 0 {
        Seq::empty()
    } else {
        inbox_lines(items.drop_last()) + inbox_line(items.last().0, items.last().1@)
    }
}

/// One vertex line: `      vI = VALUE  edges:[e1, e2]`.
pub open spec fn vertex_line(id: u64, value: Seq<char>, edges: Seq<u64>) -> Seq<char> {
    "      v"@ + decimal(id as nat) + " = "@ + value + "  edges:["@ + join(
        edges.map_values(|e: u64| decimal(e as nat)),
        ", "@,
    ) + "]\n"@
}

pub open spec fn vertex_lines(vertices: Seq<(u64, String, Vec<u64>)>) -> Seq<char>
    decreases vertices.len(),
{
    if vertices.len() == 0 {
        Seq::empty()
    } else {
        let v = vertices.last();
        vertex_lines(vertices.drop_last()) + vertex_line(v.0, v.1@, v.2@)
    }
}

/// The messages of all batches, each tagged with its target worker, in the
/// order of the batches.
pub open spec fn flatten(batches: Seq<(u32, Vec<(u64, String)>)>) -> Seq<(u32, u64, String)>
    decreases batches.len(),
{
    if batches.len() == 0 {
        Seq::empty()
    } else {
        let b = batches.last();
        flatten(batches.drop_last()) + b.1@.map_values(|m: (u64, String)| (b.0, m.0, m.1))
    }
}

/// Order of outgoing messages: by target worker, then by target vertex.
pub open spec fn key_le(a: (u32, u64, String), b: (u32, u64, String)) -> bool {
    a.0 < b.0 || (a.0 == b.0 && a.1 <= b.1)
}

/// `x` inserted after the last element whose key is not above its own
/// (the step of a stable insertion sort).
pub open spec fn insert_sorted(s: Seq<(u32, u64, String)>, x: (u32, u64, String)) -> Seq<(u32, u64, String)>
    decreases s.len(),
{
    if s.len() == 0 {
        seq![x]
    } else if key_le(s.last(), x) {
        s.push(x)
    } else {
        insert_sorted(s.drop_last(), x).push(s.last())
    }
}

/// The messages stably sorted by (target worker, target vertex).
pub open spec fn sort_outgoing(s: Seq<(u32, u64, String)>) -> Seq<(u32, u64, String)>
    decreases s.len(),
{
    if s.len() == 0 {
        Seq::empty()
    } else {
        insert_sorted(sort_outgoing(s.drop_last()), s.last())
    }
}

/// One outgoing line: `      → worker W vV: PAYLOAD`.
pub open spec fn outgoing_line(m: (u32, u64, String)) -> Seq<char> {
    "      → worker "@ + decimal(m.0 as nat) + " v"@ + decimal(m.1 as nat) + ": "@ + m.2@ + "\n"@
}

pub open spec fn outgoing_lines(s: Seq<(u32, u64, String)>) -> Seq<char>
    decreases s.len(),
{
    if s.len() == 0 {
        Seq::empty()
    } else {
        outgoing_lines(s.drop_last()) + outgoing_line(s.last())
    }
}

/// The block printed for `e` by a print observer of the given level, or
/// `None` when that level prints nothing for it.
pub open spec fn rendered(level: u8, e: ObservableEvent) -> Option<Seq<char>> {
    match e {
        ObservableEvent::SuperstepStarted { worker_id, superstep } => Some(
            "\n"@ + rule() + "\n"@ + head(worker_id) + " SUPERSTEP "@ + decimal(superstep as nat)
                + "\n"@ + rule() + "\n"@,
        ),
        ObservableEvent::SuperstepCompleted { worker_id, superstep, duration_ms } => Some(
            head(worker_id) + " ✓ step "@ + decimal(superstep as nat) + " done ("@ + decimal(
                duration_ms as nat,
            ) + "ms)\n\n"@,
        ),
        ObservableEvent::MessagesSent { worker_id, count, bytes } => Some(
            head(worker_id) + "   → SENT: "@ + decimal(count as nat) + " msgs ("@ + decimal(
                bytes as nat,
            ) + " B)\n"@,
        ),
        ObservableEvent::VerticesComputed { worker_id, count } => Some(
            head(worker_id) + "   computed "@ + decimal(count as nat) + " vertices\n"@,
        ),
        ObservableEvent::CheckpointSaved { worker_id, superstep } => Some(
            head(worker_id) + "   💾 checkpoint saved @ step "@ + decimal(superstep as nat) + "\n"@,
        ),
        ObservableEvent::InboxSnapshot { worker_id, superstep, items } => if level >= 2 {
            Some(
                head(worker_id) + " phase: RECEIVED (inbox for step "@ + decimal(superstep as nat)
                    + ")\n"@ + if items@.len() == 0 {
                    "      (empty)\n"@
                } else {
                    inbox_lines(items@)
                },
            )
        } else {
            None
        },
        ObservableEvent::VertexSnapshot { worker_id, superstep, vertices } => if level >= 2 {
            Some(
                head(worker_id) + " phase: STATE (vertices @ step "@ + decimal(superstep as nat)
                    + ")\n"@ + vertex_lines(vertices@),
            )
        } else {
            None
        },
        ObservableEvent::OutgoingSnapshot { worker_id, superstep, batches } => if level >= 2 {
            Some(
                head(worker_id) + " phase: SENT (outgoing @ step "@ + decimal(superstep as nat)
                    + ")\n"@ + if batches@.len() == 0 {
                    "      (none)\n"@
                } else {
                    outgoing_lines(sort_outgoing(flatten(batches@)))
                },
            )
        } else {
            None
        },
        ObservableEvent::BatchesReceived { worker_id, superstep, batch_count, message_count } => if level >= 2 {
            Some(
                head(worker_id) + " phase: DRAINED from network → "@ + decimal(batch_count as nat)
                    + " batches, "@ + decimal(message_count as nat) + " msgs (for step "@
                    + decimal(superstep as nat) + ")\n"@,
            )
        } else {
            None
        },
        ObservableEvent::PhaseMarker { worker_id, phase, superstep } => if level >= 2 {
            Some(head(worker_id) + " DEBUG: "@ + phase@ + " (step "@ + decimal(superstep as nat) + ")\n"@)
        } else {
            None
        },
        ObservableEvent::TransportDebug { worker_id, target_worker, transport, phase, addr } => if level >= 2 {
            Some(
                head(worker_id) + " "@ + transport@ + " "@ + phase@ + " → worker "@ + decimal(
                    target_worker as nat,
                ) + " ("@ + addr@ + ")\n"@,
            )
        } else {
            None
        },
    }
}

// ---------------------------------------------------------------------------
// Building the text
// ---------------------------------------------------------------------------

fn push_dec(s: &mut String, n: u64)
    ensures
        final(s)@ == old(s)@ + decimal(n as nat),
{
    let d = u64_to_decimal(n);
    s.append(d.as_str());
}

fn head_exec(worker_id: u32) -> (s: String)
    ensures
        s@ == head(worker_id),
{
    let mut s = String::from_str("  [worker ");
    push_dec(&mut s, worker_id as u64);
    s.append("]");
    s
}

fn rule_exec() -> (s: String)
    ensures
        s@ == rule(),
{
    let mut s = String::new();
    for i in 0..60u64
        invariant
            s@ == repeat("─"@, i as nat),
    {
        s.append("─");
    }
    s
}

fn join_exec(items: &Vec<String>, sep: &str) -> (s: String)
    ensures
        s@ == join(views(items@), sep@),
{
    let mut s = String::new();
    for i in 0..items.len()
        invariant
            s@ == join(views(items@.take(i as int)), sep@),
    {
        proof {
            let pre = views(items@.take(i as int));
            let post = views(items@.take(i + 1));
            assert(post.drop_last() =~= pre);
            assert(post.last() == items@[i as int]@);
            assert(post.len() == i + 1);
        }
        if i > 0 {
            s.append(sep);
        }
        s.append(items[i].as_str());
    }
    assert(items@.take(items@.len() as int) =~= items@);
    s
}

fn join_decimals(edges: &Vec<u64>) -> (s: String)
    ensures
        s@ == join(edges@.map_values(|e: u64| decimal(e as nat)), ", "@),
{
    let mut s = String::new();
    for i in 0..edges.len()
        invariant
            s@ == join(edges@.take(i as int).map_values(|e: u64| decimal(e as nat)), ", "@),
    {
        proof {
            let pre = edges@.take(i as int).map_values(|e: u64| decimal(e as nat));
            let post = edges@.take(i + 1).map_values(|e: u64| decimal(e as nat));
            assert(post.drop_last() =~= pre);
            assert(post.last() == decimal(edges@[i as int] as nat));
            assert(post.len() == i + 1);
        }
        if i > 0 {
            s.append(", ");
        }
        push_dec(&mut s, edges[i]);
    }
    assert(edges@.take(edges@.len() as int) =~= edges@);
    s
}

fn inbox_text(items: &Vec<(u64, Vec<String>)>) -> (s: String)
    ensures
        s@ == inbox_lines(items@),
{
    let mut s = String::new();
    for i in 0..items.len()
        invariant
            s@ == inbox_lines(items@.take(i as int)),
    {
        assert(items@.take(i + 1).drop_last() =~= items@.take(i as int));
        s.append("      v");
        push_dec(&mut s, items[i].0);
        s.append(" ← [");
        let j = join_exec(&items[i].1, ", ");
        s.append(j.as_str());
        s.append("]\n");
    }
    assert(items@.take(items@.len() as int) =~= items@);
    s
}

fn vertex_text(vertices: &Vec<(u64, String, Vec<u64>)>) -> (s: String)
    ensures
        s@ == vertex_lines(vertices@),
{
    let mut s = String::new();
    for i in 0..vertices.len()
        invariant
            s@ == vertex_lines(vertices@.take(i as int)),
    {
        assert(vertices@.take(i + 1).drop_last() =~= vertices@.take(i as int));
        s.append("      v");
        push_dec(&mut s, vertices[i].0);
        s.append(" = ");
        s.append(vertices[i].1.as_str());
        s.append("  edges:[");
        let j = join_decimals(&vertices[i].2);
        s.append(j.as_str());
        s.append("]\n");
    }
    assert(vertices@.take(vertices@.len() as int) =~= vertices@);
    s
}

fn flatten_exec(batches: &Vec<(u32, Vec<(u64, String)>)>) -> (out: Vec<(u32, u64, String)>)
    ensures
        out@ == flatten(batches@),
{
    let mut out: Vec<(u32, u64, String)> = Vec::new();
    for i in 0..batches.len()
        invariant
            out@ == flatten(batches@.take(i as int)),
    {
        assert(batches@.take(i + 1).drop_last() =~= batches@.take(i as int));
        let w = batches[i].0;
        let msgs = &batches[i].1;
        let ghost start = out@;
        for j in 0..msgs.len()
            invariant
                msgs == &batches@[i as int].1,
                out@ == start + msgs@.take(j as int).map_values(|m: (u64, String)| (w, m.0, m.1)),
        {
            let payload = msgs[j].1.clone();
            out.push((w, msgs[j].0, payload));
            assert(msgs@.take(j + 1).map_values(|m: (u64, String)| (w, m.0, m.1)) =~= msgs@.take(
                j as int,
            ).map_values(|m: (u64, String)| (w, m.0, m.1)).push((w, msgs@[j as int].0, msgs@[j as int].1)));
        }
        assert(msgs@.take(msgs@.len() as int) =~= msgs@);
    }
    assert(batches@.take(batches@.len() as int) =~= batches@);
    out
}

fn key_le_exec(a: &(u32, u64, String), b: &(u32, u64, String)) -> (r: bool)
    ensures
        r == key_le(*a, *b),
{
    a.0 < b.0 || (a.0 == b.0 && a.1 <= b.1)
}

proof fn lemma_insert_at(s: Seq<(u32, u64, String)>, x: (u32, u64, String), j: int)
    requires
        0 <= j <= s.len(),
        forall|k: int| j <= k < s.len() ==> !key_le(#[trigger] s[k], x),
        j == 0 || key_le(s[j - 1], x),
    ensures
        insert_sorted(s, x) == s.take(j).push(x) + s.skip(j),
    decreases s.len(),
{
    if s.len() == j {
        assert(s.take(j) =~= s);
        assert(s.skip(j) =~= Seq::<(u32, u64, String)>::empty());
        if j == 0 {
            assert(insert_sorted(s, x) =~= seq![x]);
            assert(s.take(j).push(x) + s.skip(j) =~= seq![x]);
        } else {
            assert(s.take(j).push(x) + s.skip(j) =~= s.push(x));
        }
    } else {
        let d = s.drop_last();
        assert(!key_le(s[s.len() - 1], x));
        assert forall|k: int| j <= k < d.len() implies !key_le(#[trigger] d[k], x) by {
            assert(d[k] == s[k]);
        }
        if j > 0 {
            assert(d[j - 1] == s[j - 1]);
        }
        lemma_insert_at(d, x, j);
        assert(d.take(j) =~= s.take(j));
        assert((d.take(j).push(x) + d.skip(j)).push(s.last()) =~= s.take(j).push(x) + s.skip(j));
    }
}

fn sort_outgoing_exec(items: Vec<(u32, u64, String)>) -> (out: Vec<(u32, u64, String)>)
    ensures
        out@ == sort_outgoing(items@),
{
    let mut out: Vec<(u32, u64, String)> = Vec::new();
    let mut rest = items;
    let mut taken: Vec<(u32, u64, String)> = Vec::new();
    // move the items out in reverse, so that popping gives them in order
    while rest.len() > 0
        invariant
            items@ == rest@ + taken@.reverse(),
        decreases rest.len(),
    {
        let x = rest.pop().unwrap();
        proof {
            assert(taken@.push(x).reverse() =~= seq![x] + taken@.reverse());
        }
        taken.push(x);
        assert(items@ =~= rest@ + taken@.reverse());
    }
    assert(taken@.reverse() =~= items@);
    let n = taken.len();
    while taken.len() > 0
        invariant
            taken@.len() <= n,
            n == items@.len(),
            taken@.reverse() == items@.skip(n - taken@.len()),
            out@ == sort_outgoing(items@.take(n - taken@.len())),
        decreases taken.len(),
    {
        let ghost i = n - taken@.len();
        let ghost pre = taken@;
        let x = taken.pop().unwrap();
        proof {
            assert(pre.reverse()[0] == x);
            assert(items@.skip(i)[0] == items@[i]);
            assert(taken@.reverse() =~= pre.reverse().skip(1));
            assert(items@.skip(i).skip(1) =~= items@.skip(i + 1));
            assert(items@.take(i + 1).drop_last() =~= items@.take(i));
        }
        let mut j = out.len();
        while j > 0 && !key_le_exec(&out[j - 1], &x)
            invariant
                j <= out@.len(),
                forall|k: int| j <= k < out@.len() ==> !key_le(#[trigger] out@[k], x),
            decreases j,
        {
            j -= 1;
        }
        proof {
            lemma_insert_at(out@, x, j as int);
        }
        out.insert(j, x);
        assert(out@ =~= sort_outgoing(items@.take(i + 1)));
    }
    assert(items@.take(n as int) =~= items@);
    out
}

impl PrintObserver {
    pub fn new(level: u8) -> (r: Self)
        ensures
            r.level == level,
    {
        Self { level }
    }

    /// The block of text this observer prints for `event`, or `None` when
    /// its level prints nothing for it. Outgoing messages are listed by
    /// target worker, then target vertex, keeping their order otherwise.
    pub fn render(&self, event: &ObservableEvent) -> (r: Option<String>)
        ensures
            r.is_some() == rendered(self.level, *event).is_some(),
            r.is_some() ==> r.unwrap()@ == rendered(self.level, *event).unwrap(),
    {
        match event {
            ObservableEvent::SuperstepStarted { worker_id, superstep } => {
                let line = rule_exec();
                let mut s = String::from_str("\n");
                s.append(line.as_str());
                s.append("\n");
                let h = head_exec(*worker_id);
                s.append(h.as_str());
                s.append(" SUPERSTEP ");
                push_dec(&mut s, *superstep);
                s.append("\n");
                s.append(line.as_str());
                s.append("\n");
                Some(s)
            },
            ObservableEvent::SuperstepCompleted { worker_id, superstep, duration_ms } => {
                let mut s = head_exec(*worker_id);
                s.append(" ✓ step ");
                push_dec(&mut s, *superstep);
                s.append(" done (");
                push_dec(&mut s, *duration_ms);
                s.append("ms)\n\n");
                Some(s)
            },
            ObservableEvent::MessagesSent { worker_id, count, bytes } => {
                let mut s = head_exec(*worker_id);
                s.append("   → SENT: ");
                push_dec(&mut s, *count as u64);
                s.append(" msgs (");
                push_dec(&mut s, *bytes as u64);
                s.append(" B)\n");
                Some(s)
            },
            ObservableEvent::VerticesComputed { worker_id, count } => {
                let mut s = head_exec(*worker_id);
                s.append("   computed ");
                push_dec(&mut s, *count as u64);
                s.append(" vertices\n");
                Some(s)
            },
            ObservableEvent::CheckpointSaved { worker_id, superstep } => {
                let mut s = head_exec(*worker_id);
                s.append("   💾 checkpoint saved @ step ");
                push_dec(&mut s, *superstep);
                s.append("\n");
                Some(s)
            },
            ObservableEvent::InboxSnapshot { worker_id, superstep, items } => {
                if self.level < 2 {
                    return None;
                }
                let mut s = head_exec(*worker_id);
                s.append(" phase: RECEIVED (inbox for step ");
                push_dec(&mut s, *superstep);
                s.append(")\n");
                if items.len() == 0 {
                    s.append("      (empty)\n");
                } else {
                    let body = inbox_text(items);
                    s.append(body.as_str());
                }
                Some(s)
            },
            ObservableEvent::VertexSnapshot { worker_id, superstep, vertices } => {
                if self.level < 2 {
                    return None;
                }
                let mut s = head_exec(*worker_id);
                s.append(" phase: STATE (vertices @ step ");
                push_dec(&mut s, *superstep);
                s.append(")\n");
                let body = vertex_text(vertices);
                s.append(body.as_str());
                Some(s)
            },
            ObservableEvent::OutgoingSnapshot { worker_id, superstep, batches } => {
                if self.level < 2 {
                    return None;
                }
                let mut s = head_exec(*worker_id);
                s.append(" phase: SENT (outgoing @ step ");
                push_dec(&mut s, *superstep);
                s.append(")\n");
                if batches.len() == 0 {
                    s.append("      (none)\n");
                } else {
                    let all = sort_outgoing_exec(flatten_exec(batches));
                    let ghost start = s@;
                    for i in 0..all.len()
                        invariant
                            s@ == start + outgoing_lines(all@.take(i as int)),
                    {
                        assert(all@.take(i + 1).drop_last() =~= all@.take(i as int));
                        s.append("      → worker ");
                        push_dec(&mut s, all[i].0 as u64);
                        s.append(" v");
                        push_dec(&mut s, all[i].1);
                        s.append(": ");
                        s.append(all[i].2.as_str());
                        s.append("\n");
                    }
                    assert(all@.take(all@.len() as int) =~= all@);
                }
                Some(s)
            },
            ObservableEvent::BatchesReceived { worker_id, superstep, batch_count, message_count } => {
                if self.level < 2 {
                    return None;
                }
                let mut s = head_exec(*worker_id);
                s.append(" phase: DRAINED from network → ");
                push_dec(&mut s, *batch_count as u64);
                s.append(" batches, ");
                push_dec(&mut s, *message_count as u64);
                s.append(" msgs (for step ");
                push_dec(&mut s, *superstep);
                s.append(")\n");
                Some(s)
            },
            ObservableEvent::PhaseMarker { worker_id, phase, superstep } => {
                if self.level < 2 {
                    return None;
                }
                let mut s = head_exec(*worker_id);
                s.append(" DEBUG: ");
                s.append(*phase);
                s.append(" (step ");
                push_dec(&mut s, *superstep);
                s.append(")\n");
                Some(s)
            },
            ObservableEvent::TransportDebug { worker_id, target_worker, transport, phase, addr } => {
                if self.level < 2 {
                    return None;
                }
                let mut s = head_exec(*worker_id);
                s.append(" ");
                s.append(*transport);
                s.append(" ");
                s.append(*phase);
                s.append(" → worker ");
                push_dec(&mut s, *target_worker as u64);
                s.append(" (");
                s.append(addr.as_str());
                s.append(")\n");
                Some(s)
            },
        }
    }
}

/// The metrics that a metrics backend keeps per worker.
#[derive(Debug, Clone, Copy, PartialEq, Eq)]
pub enum Metric {
    /// Histogram of superstep durations; the amount is in milliseconds.
    SuperstepDuration,
    /// Counter of messages sent.
    MessagesSent,
    /// Counter of vertices computed.
    VerticesComputed,
    /// Counter of checkpoints saved.
    CheckpointsSaved,
}

/// One change to a metric: which one, the worker label, and the amount
/// observed or added.
#[derive(Debug, Clone)]
pub struct MetricUpdate {
    pub metric: Metric,
    pub worker_label: String,
    pub amount: u64,
}

/// The metric change an event makes, if any: superstep durations, message
/// and vertex counts, and one per checkpoint, labelled by worker id.
pub open spec fn spec_metric_update(e: ObservableEvent) -> Option<(Metric, u32, u64)> {
    match e {
        ObservableEvent::SuperstepCompleted { worker_id, duration_ms, .. } => Some(
            (Metric::SuperstepDuration, worker_id, duration_ms),
        ),
        ObservableEvent::MessagesSent { worker_id, count, .. } => Some((Metric::MessagesSent, worker_id, count as u64)),
        ObservableEvent::VerticesComputed { worker_id, count } => Some(
            (Metric::VerticesComputed, worker_id, count as u64),
        ),
        ObservableEvent::CheckpointSaved { worker_id, .. } => Some((Metric::CheckpointsSaved, worker_id, 1)),
        _ => None,
    }
}

/// The metric change that `event` makes, with the worker id rendered as
/// the label; `None` for events that no metric counts.
pub fn metric_update(event: &ObservableEvent) -> (r: Option<MetricUpdate>)
    ensures
        r.is_some() == spec_metric_update(*event).is_some(),
        r matches Some(u) ==> ({
            let (m, w, a) = spec_metric_update(*event).unwrap();
            u.metric == m && u.worker_label@ == decimal(w as nat) && u.amount == a
        }),
{
    let (metric, worker_id, amount) = match event {
        ObservableEvent::SuperstepCompleted { worker_id, duration_ms, .. } => (
            Metric::SuperstepDuration,
            *worker_id,
            *duration_ms,
        ),
        ObservableEvent::MessagesSent { worker_id, count, .. } => (Metric::MessagesSent, *worker_id, *count as u64),
        ObservableEvent::VerticesComputed { worker_id, count } => (
            Metric::VerticesComputed,
            *worker_id,
            *count as u64,
        ),
        ObservableEvent::CheckpointSaved { worker_id, .. } => (Metric::CheckpointsSaved, *worker_id, 1),
        _ => {
            return None;
        },
    };
    Some(MetricUpdate { metric, worker_label: u64_to_decimal(worker_id as u64), amount })
}

/// Whether `s` is in (target worker, target vertex) order.
pub open spec fn sorted_by_key(s: Seq<(u32, u64, String)>) -> bool {
    forall|i: int, j: int| 0 <= i < j < s.len() ==> key_le(#[trigger] s[i], #[trigger] s[j])
}

proof fn lemma_insert_sorted(s: Seq<(u32, u64, String)>, x: (u32, u64, String))
    requires
        sorted_by_key(s),
    ensures
        sorted_by_key(insert_sorted(s, x)),
        insert_sorted(s, x).to_multiset() == s.to_multiset().insert(x),
        forall|k: int|
            0 <= k < insert_sorted(s, x).len() ==> #[trigger] insert_sorted(s, x)[k] == x || s.contains(
                insert_sorted(s, x)[k],
            ),
    decreases s.len(),
{
    broadcast use vstd::seq_lib::to_multiset_build;

    if s.len() == 0 {
        assert(seq![x] =~= s.push(x));
        assert(s.push(x).to_multiset() =~= s.to_multiset().insert(x));
    } else if key_le(s.last(), x) {
        let r = s.push(x);
        assert forall|k: int| 0 <= k < r.len() implies #[trigger] r[k] == x || s.contains(r[k]) by {
            if k < s.len() {
                assert(s[k] == r[k]);
            }
        }
    } else {
        let d = s.drop_last();
        assert(sorted_by_key(d)) by {
            assert forall|i: int, j: int| 0 <= i < j < d.len() implies key_le(#[trigger] d[i], #[trigger] d[j]) by {
                assert(d[i] == s[i] && d[j] == s[j]);
            }
        }
        lemma_insert_sorted(d, x);
        let q = insert_sorted(d, x);
        let r = q.push(s.last());
        assert forall|k: int| 0 <= k < q.len() implies key_le(#[trigger] q[k], s.last()) by {
            if q[k] != x {
                let m = choose|m: int| 0 <= m < d.len() && d[m] == q[k];
                assert(s[m] == d[m]);
                assert(key_le(s[m], s[s.len() - 1]));
            }
        }
        assert forall|i: int, j: int| 0 <= i < j < r.len() implies key_le(#[trigger] r[i], #[trigger] r[j]) by {
            if j < q.len() {
                assert(r[i] == q[i] && r[j] == q[j]);
            } else {
                assert(r[i] == q[i]);
            }
        }
        assert forall|k: int| 0 <= k < r.len() implies #[trigger] r[k] == x || s.contains(r[k]) by {
            if k < q.len() {
                if q[k] != x {
                    let m = choose|m: int| 0 <= m < d.len() && d[m] == q[k];
                    assert(s[m] == d[m]);
                }
            } else {
                assert(s[s.len() - 1] == r[k]);
            }
        }
        assert(s =~= d.push(s.last()));
        assert(r.to_multiset() =~= s.to_multiset().insert(x)) by {
            broadcast use vstd::multiset::group_multiset_axioms;
        }
    }
}

/// The outgoing messages come out in (target worker, target vertex) order,
/// and they are the same messages as went in, each as often.
pub proof fn lemma_sort_outgoing_sorted(s: Seq<(u32, u64, String)>)
    ensures
        sorted_by_key(sort_outgoing(s)),
        sort_outgoing(s).to_multiset() == s.to_multiset(),
    decreases s.len(),
{
    broadcast use vstd::seq_lib::to_multiset_build;

    if s.len() == 0 {
        assert(s =~= Seq::<(u32, u64, String)>::empty());
    } else {
        let d = s.drop_last();
        lemma_sort_outgoing_sorted(d);
        lemma_insert_sorted(sort_outgoing(d), s.last());
        assert(s =~= d.push(s.last()));
        assert(d.push(s.last()).to_multiset() =~= d.to_multiset().insert(s.last()));
    }
}

} // verus!
