//! Connected components as a vertex program: every vertex adopts the
//! smallest component id it hears of and tells its neighbours (edges and
//! message senders alike) when its id drops.

use vstd::prelude::*;
use crate::sdk::{Context, Vertex, VertexProgram};
use crate::codec::{decode_u64, decoded_u64, encode_u64, u64_le_bytes};
use crate::storage::copy_ids;
use crate::types::{ComputeInput, ComputeResultWire, VertexId};

verus! {

/// The smallest value among the messages, or `cur` if none is smaller.
pub open spec fn min_received(msgs: Seq<(VertexId, u64)>, cur: u64) -> u64
    decreases msgs.len(),
{
    if msgs.len() == 0 {
        cur
    } else {
        let m = min_received(msgs.drop_last(), cur);
        if msgs.last().1 < m {
            msgs.last().1
        } else {
            m
        }
    }
}

/// The senders of the messages.
pub open spec fn senders(msgs: Seq<(VertexId, u64)>) -> Set<VertexId> {
    Set::new(|v: VertexId| exists|i: int| 0 <= i < msgs.len() && #[trigger] msgs[i].0 == v)
}

/// The senders of messages carrying a value greater than `cur`.
pub open spec fn larger_senders(msgs: Seq<(VertexId, u64)>, cur: u64) -> Set<VertexId> {
    Set::new(|v: VertexId| exists|i: int| 0 <= i < msgs.len() && #[trigger] msgs[i].0 == v && msgs[i].1 > cur)
}

/// Whether some message carries a value greater than `cur`.
pub open spec fn any_larger(msgs: Seq<(VertexId, u64)>, cur: u64) -> bool {
    exists|i: int| 0 <= i < msgs.len() && #[trigger] msgs[i].1 > cur
}

/// Every message is sent with the value `v`, to a distinct target, and the
/// targets are exactly `targets`.
pub open spec fn sends_to(sent: Seq<(VertexId, u64)>, targets: Set<VertexId>, v: u64) -> bool {
    &&& forall|i: int| 0 <= i < sent.len() ==> (#[trigger] sent[i]).1 == v
    &&& forall|i: int, j: int| 0 <= i < j < sent.len() ==> #[trigger] sent[i].0 != #[trigger] sent[j].0
    &&& forall|t: VertexId| targets.contains(t) <==> exists|i: int| 0 <= i < sent.len() && #[trigger] sent[i].0 == t
}

/// The targets that a step with a smaller id tells (edge targets and
/// senders), or, when the id stayed, the senders that hold a larger one.
pub open spec fn cc_targets(cur: u64, edges: Seq<VertexId>, msgs: Seq<(VertexId, u64)>) -> Set<VertexId> {
    if min_received(msgs, cur) < cur {
        edges.to_set().union(senders(msgs))
    } else {
        larger_senders(msgs, cur)
    }
}

/// What one step of connected components does at a vertex with value
/// `cur` and out-edges `edges` on receiving `msgs`: its new value and the
/// messages it sends, in order.
pub open spec fn cc_outcome(
    cur: u64,
    edges: Seq<VertexId>,
    msgs: Seq<(VertexId, u64)>,
    value: u64,
    sent: Seq<(VertexId, u64)>,
) -> bool {
    let nc = min_received(msgs, cur);
    if msgs.len() == 0 {
        value == cur && sent == edges.map_values(|t: VertexId| (t, cur))
    } else if !(nc < cur || any_larger(msgs, cur)) {
        value == cur && sent.len() == 0
    } else {
        value == nc && sends_to(sent, cc_targets(cur, edges, msgs), nc)
    }
}

fn contains_id(v: &Vec<VertexId>, x: VertexId) -> (r: bool)
    ensures
        r == v@.contains(x),
{
    for i in 0..v.len()
        invariant
            forall|j: int| 0 <= j < i ==> v@[j] != x,
    {
        if v[i] == x {
            return true;
        }
    }
    false
}

/// Appends `t` unless it is already there.
fn push_unique(targets: &mut Vec<VertexId>, t: VertexId)
    requires
        old(targets)@.no_duplicates(),
    ensures
        final(targets)@.no_duplicates(),
        forall|x: VertexId| #[trigger] final(targets)@.contains(x) <==> (old(targets)@.contains(x) || x == t),
{
    if !contains_id(targets, t) {
        let ghost before = targets@;
        targets.push(t);
        proof {
            assert forall|x: VertexId| #[trigger] targets@.contains(x) <==> (before.contains(x) || x == t) by {
                if before.contains(x) {
                    let j = choose|j: int| 0 <= j < before.len() && before[j] == x;
                    assert(targets@[j] == x);
                }
                if x == t {
                    assert(targets@[before.len() as int] == x);
                }
                if targets@.contains(x) {
                    let j = choose|j: int| 0 <= j < targets@.len() && targets@[j] == x;
                    if j < before.len() {
                        assert(before[j] == x);
                    }
                }
            }
        }
    }
}

/// One superstep of connected components at a vertex. On the first round
/// (no messages) the vertex sends its value along every edge. Later it
/// takes the minimum of its value and the values received; if that is
/// smaller it tells every neighbour (edge targets and senders), and if
/// only some senders hold a larger value it answers just those. Otherwise
/// it stays silent.
pub fn cc_compute(vertex: &mut Vertex<u64>, messages: &[(VertexId, u64)], ctx: &mut Context<u64>)
    ensures
        final(vertex).id == old(vertex).id,
        final(vertex).edges == old(vertex).edges,
        final(ctx).superstep == old(ctx).superstep,
        final(ctx).total_vertices == old(ctx).total_vertices,
        final(ctx).outgoing@.len() >= old(ctx).outgoing@.len(),
        final(ctx).outgoing@.subrange(0, old(ctx).outgoing@.len() as int) == old(ctx).outgoing@,
        cc_outcome(
            old(vertex).value,
            old(vertex).edges@,
            messages@,
            final(vertex).value,
            final(ctx).outgoing@.subrange(old(ctx).outgoing@.len() as int, final(ctx).outgoing@.len() as int),
        ),
        messages@.len() > 0 && (forall|j: int| 0 <= j < messages@.len() ==> #[trigger] messages@[j].1 >= old(vertex).value)
            ==> final(vertex).value == old(vertex).value && forall|i: int|
            old(ctx).outgoing@.len() <= i < final(ctx).outgoing@.len() ==> larger_senders(messages@, old(vertex).value).contains(
                #[trigger] final(ctx).outgoing@[i].0,
            ),
{
    let current = vertex.value;
    let mut new_component = current;
    let mut any_sender_larger = false;
    for i in 0..messages.len()
        invariant
            new_component == min_received(messages@.take(i as int), current),
            any_sender_larger == any_larger(messages@.take(i as int), current),
    {
        proof {
            assert(messages@.take(i + 1).drop_last() =~= messages@.take(i as int));
        }
        let v = messages[i].1;
        if v < new_component {
            new_component = v;
        }
        if v > current {
            any_sender_larger = true;
        }
        proof {
            let t = messages@.take(i + 1);
            if any_larger(messages@.take(i as int), current) {
                let j = choose|j: int| 0 <= j < i && #[trigger] messages@.take(i as int)[j].1 > current;
                assert(t[j].1 > current);
            }
            if v > current {
                assert(t[i as int].1 > current);
            }
            if any_larger(t, current) {
                let j = choose|j: int| 0 <= j < t.len() && #[trigger] t[j].1 > current;
                if j < i {
                    assert(messages@.take(i as int)[j].1 > current);
                }
            }
        }
    }
    assert(messages@.take(messages@.len() as int) =~= messages@);
    let ghost before = ctx.outgoing@;
    if messages.len() == 0 {
        vertex.value = new_component;
        let n = vertex.edges.len();
        for k in 0..n
            invariant
                n == vertex.edges@.len(),
                ctx.outgoing@ == before + vertex.edges@.take(k as int).map_values(|t: VertexId| (t, current)),
                ctx.superstep == old(ctx).superstep,
                ctx.total_vertices == old(ctx).total_vertices,
                new_component == current,
        {
            ctx.send(vertex.edges[k], new_component);
            proof {
                assert(vertex.edges@.take(k + 1).map_values(|t: VertexId| (t, current)) =~= vertex.edges@.take(
                    k as int,
                ).map_values(|t: VertexId| (t, current)).push((vertex.edges@[k as int], current)));
            }
        }
        assert(vertex.edges@.take(n as int) =~= vertex.edges@);
        assert(ctx.outgoing@.subrange(0, before.len() as int) =~= before);
        assert(ctx.outgoing@.subrange(before.len() as int, ctx.outgoing@.len() as int) =~= vertex.edges@.map_values(|t: VertexId| (t, current)));
        return;
    }
    let should_send = new_component < current || any_sender_larger;
    if !should_send {
        assert(ctx.outgoing@.subrange(0, before.len() as int) =~= before);
        assert(ctx.outgoing@.subrange(before.len() as int, ctx.outgoing@.len() as int).len() == 0);
        return;
    }
    vertex.value = new_component;
    // the targets, each once
    let mut targets: Vec<VertexId> = Vec::new();
    let ghost want: Set<VertexId> = if new_component < current {
        vertex.edges@.to_set().union(senders(messages@))
    } else {
        larger_senders(messages@, current)
    };
    if new_component < current {
        let n = vertex.edges.len();
        for k in 0..n
            invariant
                n == vertex.edges@.len(),
                targets@.no_duplicates(),
                forall|t: VertexId| #[trigger] targets@.contains(t) <==> vertex.edges@.take(k as int).contains(t),
        {
            let t = vertex.edges[k];
            push_unique(&mut targets, t);
            proof {
                let pre = vertex.edges@.take(k as int);
                let post = vertex.edges@.take(k + 1);
                assert forall|x: VertexId| #[trigger] targets@.contains(x) <==> post.contains(x) by {
                    if pre.contains(x) {
                        let j = choose|j: int| 0 <= j < pre.len() && pre[j] == x;
                        assert(post[j] == x);
                    }
                    if x == t {
                        assert(post[k as int] == x);
                    }
                    if post.contains(x) {
                        let j = choose|j: int| 0 <= j < post.len() && post[j] == x;
                        if j < k {
                            assert(pre[j] == x);
                        }
                    }
                }
            }
        }
        assert(vertex.edges@.take(n as int) =~= vertex.edges@);
        for k in 0..messages.len()
            invariant
                targets@.no_duplicates(),
                forall|t: VertexId| #[trigger] targets@.contains(t) <==> (vertex.edges@.contains(t)
                    || exists|j: int| 0 <= j < k && #[trigger] messages@[j].0 == t),
        {
            let t = messages[k].0;
            push_unique(&mut targets, t);
            proof {
                assert forall|x: VertexId| #[trigger] targets@.contains(x) <==> (vertex.edges@.contains(x)
                    || exists|j: int| 0 <= j < k + 1 && #[trigger] messages@[j].0 == x) by {
                    if x == t {
                        assert(messages@[k as int].0 == x);
                    }
                }
            }
        }
        proof {
            assert forall|x: VertexId| #[trigger] targets@.contains(x) <==> want.contains(x) by {
                assert(vertex.edges@.to_set().contains(x) == vertex.edges@.contains(x));
            }
        }
    } else {
        for k in 0..messages.len()
            invariant
                targets@.no_duplicates(),
                forall|t: VertexId| #[trigger] targets@.contains(t) <==> exists|j: int|
                    0 <= j < k && #[trigger] messages@[j].0 == t && messages@[j].1 > current,
        {
            let (t, v) = messages[k];
            if v > current {
                push_unique(&mut targets, t);
            }
            proof {
                assert forall|x: VertexId| #[trigger] targets@.contains(x) <==> exists|j: int|
                    0 <= j < k + 1 && #[trigger] messages@[j].0 == x && messages@[j].1 > current by {
                    if x == t && v > current {
                        assert(messages@[k as int].0 == x);
                    }
                }
            }
        }
    }
    let n = targets.len();
    for k in 0..n
        invariant
            n == targets@.len(),
            ctx.outgoing@ == before + targets@.take(k as int).map_values(|t: VertexId| (t, new_component)),
            ctx.superstep == old(ctx).superstep,
            ctx.total_vertices == old(ctx).total_vertices,
    {
        ctx.send(targets[k], new_component);
        proof {
            assert(targets@.take(k + 1).map_values(|t: VertexId| (t, new_component)) =~= targets@.take(
                k as int,
            ).map_values(|t: VertexId| (t, new_component)).push((targets@[k as int], new_component)));
        }
    }
    proof {
        assert(targets@.take(n as int) =~= targets@);
        let after = ctx.outgoing@;
        let sent = after.subrange(before.len() as int, after.len() as int);
        assert(sent =~= targets@.map_values(|t: VertexId| (t, new_component)));
        assert forall|t: VertexId| want.contains(t) <==> exists|i: int| 0 <= i < sent.len() && #[trigger] sent[i].0 == t by {
            if want.contains(t) {
                assert(targets@.contains(t));
                let i = choose|i: int| 0 <= i < targets@.len() && targets@[i] == t;
                assert(sent[i].0 == t);
            }
            if exists|i: int| 0 <= i < sent.len() && #[trigger] sent[i].0 == t {
                let i = choose|i: int| 0 <= i < sent.len() && #[trigger] sent[i].0 == t;
                assert(targets@[i] == t);
                assert(targets@.contains(t));
            }
        }
        assert(after.subrange(0, before.len() as int) =~= before);
        if forall|j: int| 0 <= j < messages@.len() ==> #[trigger] messages@[j].1 >= current {
            lemma_cc_no_drop_answers_larger_senders(current, vertex.edges@, messages@, new_component, sent);
        }
    }
}

/// The messages whose payloads decode as `u64`s, decoded, in order; the
/// others are dropped.
pub open spec fn decoded_messages(msgs: Seq<(VertexId, Vec<u8>)>) -> Seq<(VertexId, u64)>
    decreases msgs.len(),
{
    if msgs.len() == 0 {
        Seq::empty()
    } else {
        let m = msgs.last();
        decoded_messages(msgs.drop_last()) + match decoded_u64(m.1@) {
            Some(v) => seq![(m.0, v)],
            None => Seq::empty(),
        }
    }
}

/// The component id a vertex starts a step with: its value when that
/// decodes, else its own id (whose encoding decodes to itself).
pub open spec fn starting_component(input: ComputeInput) -> u64 {
    match decoded_u64(input.value@) {
        Some(v) => v,
        None => input.vertex_id,
    }
}

/// Connected components run against wire-format input, as the exported
/// guest `compute` runs it: decode the value and the messages, run one
/// step, and encode the new value and every message sent.
pub fn cc_wire_compute(input: &ComputeInput, superstep: u64) -> (r: ComputeResultWire)
    ensures
        exists|value: u64, sent: Seq<(VertexId, u64)>|
            {
                &&& cc_outcome(
                    starting_component(*input),
                    input.edges@,
                    decoded_messages(input.messages@),
                    value,
                    sent,
                )
                &&& r.new_value matches Some(b) && b@ == u64_le_bytes(value)
                &&& r.outgoing@.len() == sent.len()
                &&& forall|i: int|
                    0 <= i < sent.len() ==> (#[trigger] r.outgoing@[i]).0 == sent[i].0 && r.outgoing@[i].1@
                        == u64_le_bytes(sent[i].1)
            },
{
    let value = match decode_u64(input.value.as_slice()) {
        Some(v) => v,
        None => input.vertex_id,
    };
    let mut messages: Vec<(VertexId, u64)> = Vec::new();
    for i in 0..input.messages.len()
        invariant
            messages@ == decoded_messages(input.messages@.take(i as int)),
    {
        assert(input.messages@.take(i + 1).drop_last() =~= input.messages@.take(i as int));
        let ghost before = messages@;
        if let Some(v) = decode_u64(input.messages[i].1.as_slice()) {
            messages.push((input.messages[i].0, v));
        }
        assert(messages@ =~= decoded_messages(input.messages@.take(i + 1)));
    }
    assert(input.messages@.take(input.messages@.len() as int) =~= input.messages@);
    let mut vertex = Vertex::new(input.vertex_id, value, copy_ids(&input.edges));
    let mut ctx: Context<u64> = Context::new(superstep, input.total_vertices);
    cc_compute(&mut vertex, messages.as_slice(), &mut ctx);
    let new_value = encode_u64(vertex.value);
    let mut outgoing: Vec<(VertexId, Vec<u8>)> = Vec::new();
    for i in 0..ctx.outgoing.len()
        invariant
            outgoing@.len() == i,
            forall|j: int|
                0 <= j < i ==> (#[trigger] outgoing@[j]).0 == ctx.outgoing@[j].0 && outgoing@[j].1@
                    == u64_le_bytes(ctx.outgoing@[j].1),
    {
        let (t, m) = ctx.outgoing[i];
        outgoing.push((t, encode_u64(m)));
    }
    let r = ComputeResultWire { new_value: Some(new_value), outgoing };
    proof {
        let sent = ctx.outgoing@;
        assert(sent.subrange(0, sent.len() as int) =~= sent);
        assert(r.outgoing@.len() == sent.len());
        assert(value == starting_component(*input));
        assert(cc_outcome(
            starting_component(*input),
            input.edges@,
            decoded_messages(input.messages@),
            vertex.value,
            sent,
        ));
        assert(forall|i: int|
            0 <= i < sent.len() ==> (#[trigger] r.outgoing@[i]).0 == sent[i].0 && r.outgoing@[i].1@
                == u64_le_bytes(sent[i].1));
    }
    r
}

/// When every value a vertex receives is at least its own id, a step keeps
/// the id and every message it sends goes to a vertex that sent a larger
/// value; its edges play no part.
pub proof fn lemma_cc_no_drop_answers_larger_senders(
    cur: u64,
    edges: Seq<VertexId>,
    msgs: Seq<(VertexId, u64)>,
    value: u64,
    sent: Seq<(VertexId, u64)>,
)
    requires
        cc_outcome(cur, edges, msgs, value, sent),
        msgs.len() > 0,
        forall|j: int| 0 <= j < msgs.len() ==> #[trigger] msgs[j].1 >= cur,
    ensures
        value == cur,
        forall|i: int| 0 <= i < sent.len() ==> larger_senders(msgs, cur).contains(#[trigger] sent[i].0),
{
    lemma_min_received_no_lower(msgs, cur);
    let targets = cc_targets(cur, edges, msgs);
    if min_received(msgs, cur) < cur || any_larger(msgs, cur) {
        assert(targets == larger_senders(msgs, cur));
        assert(sends_to(sent, targets, cur));
    } else {
        assert(sent.len() == 0);
    }
    assert forall|i: int| 0 <= i < sent.len() implies larger_senders(msgs, cur).contains(#[trigger] sent[i].0) by {
        assert(targets.contains(sent[i].0));
    }
}

/// The smallest value received is the vertex's own id when no value is
/// below it.
proof fn lemma_min_received_no_lower(msgs: Seq<(VertexId, u64)>, cur: u64)
    requires
        forall|j: int| 0 <= j < msgs.len() ==> #[trigger] msgs[j].1 >= cur,
    ensures
        min_received(msgs, cur) == cur,
    decreases msgs.len(),
{
    if msgs.len() > 0 {
        let d = msgs.drop_last();
        assert forall|j: int| 0 <= j < d.len() implies #[trigger] d[j].1 >= cur by {
            assert(d[j] == msgs[j]);
        }
        lemma_min_received_no_lower(d, cur);
        assert(msgs[msgs.len() - 1].1 >= cur);
    }
}

/// Connected components as a vertex program over `u64` component ids.
#[derive(Debug, Default)]
pub struct WasmCc;

impl VertexProgram for WasmCc {
    type VertexValue = u64;
    type Message = u64;

    fn compute(&mut self, vertex: &mut Vertex<u64>, messages: &[(VertexId, u64)], ctx: &mut Context<u64>)
        ensures
            final(vertex).id == old(vertex).id,
            final(vertex).edges == old(vertex).edges,
            final(ctx).superstep == old(ctx).superstep,
            final(ctx).total_vertices == old(ctx).total_vertices,
            final(ctx).outgoing@.len() >= old(ctx).outgoing@.len(),
            final(ctx).outgoing@.subrange(0, old(ctx).outgoing@.len() as int) == old(ctx).outgoing@,
            cc_outcome(
                old(vertex).value,
                old(vertex).edges@,
                messages@,
                final(vertex).value,
                final(ctx).outgoing@.subrange(old(ctx).outgoing@.len() as int, final(ctx).outgoing@.len() as int),
            ),
            messages@.len() > 0 && (forall|j: int| 0 <= j < messages@.len() ==> #[trigger] messages@[j].1 >= old(vertex).value)
                ==> final(vertex).value == old(vertex).value && forall|i: int|
                old(ctx).outgoing@.len() <= i < final(ctx).outgoing@.len() ==> larger_senders(messages@, old(vertex).value).contains(
                    #[trigger] final(ctx).outgoing@[i].0,
                ),
    {
        cc_compute(vertex, messages, ctx);
    }
}

/// A vertex's component id never grows: after a step it is the smaller of
/// its old value and every value received.
pub proof fn lemma_component_never_grows(msgs: Seq<(VertexId, u64)>, cur: u64)
    ensures
        min_received(msgs, cur) <= cur,
        forall|i: int| 0 <= i < msgs.len() ==> min_received(msgs, cur) <= #[trigger] msgs[i].1,
    decreases msgs.len(),
{
    if msgs.len() > 0 {
        lemma_component_never_grows(msgs.drop_last(), cur);
        assert forall|i: int| 0 <= i < msgs.len() implies min_received(msgs, cur) <= #[trigger] msgs[i].1 by {
            if i < msgs.len() - 1 {
                assert(msgs.drop_last()[i] == msgs[i]);
            }
        }
    }
}

} // verus!
