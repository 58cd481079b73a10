//! Message passing: batches of messages for one target worker, and the
//! protocol of data and control messages between workers.

use vstd::prelude::*;
use crate::types::{Message, WorkerId};

verus! {

/// A batch of messages all destined for the same worker.
#[derive(Debug, Clone)]
pub struct MessageBatch {
    pub target_worker: WorkerId,
    pub messages: Vec<Message>,
}

impl MessageBatch {
    pub fn new(target_worker: WorkerId) -> (r: Self)
        ensures
            r.target_worker == target_worker,
            r.messages@ == Seq::<Message>::empty(),
    {
        Self { target_worker, messages: Vec::new() }
    }

    pub fn push(&mut self, msg: Message)
        ensures
            final(self).target_worker == old(self).target_worker,
            final(self).messages@ == old(self).messages@.push(msg),
    {
        self.messages.push(msg);
    }

    pub fn is_empty(&self) -> (r: bool)
        ensures
            r == (self.messages@.len() == 0),
    {
        self.messages.is_empty()
    }
}

/// `after` is `before` once `msg` has been pushed, as `push` says.
pub open spec fn pushed(before: MessageBatch, after: MessageBatch, msg: Message) -> bool {
    after.target_worker == before.target_worker && after.messages@ == before.messages@.push(msg)
}

/// From a fresh batch for worker `w`, after pushing `msgs` in order the
/// batch holds exactly `msgs` for `w`, and it is empty exactly when
/// nothing was pushed.
pub proof fn lemma_batch_pushes(states: Seq<MessageBatch>, msgs: Seq<Message>)
    requires
        states.len() == msgs.len() + 1,
        states[0].messages@.len() == 0,
        forall|i: int| 0 <= i < msgs.len() ==> pushed(#[trigger] states[i], states[i + 1], msgs[i]),
    ensures
        states.last().messages@ == msgs,
        states.last().target_worker == states[0].target_worker,
        (states.last().messages@.len() == 0) == (msgs.len() == 0),
    decreases msgs.len(),
{
    if msgs.len() == 0 {
        assert(states[0].messages@ =~= msgs);
    } else {
        let n = msgs.len() - 1;
        let ss = states.drop_last();
        let mm = msgs.drop_last();
        assert forall|i: int| 0 <= i < mm.len() implies pushed(#[trigger] ss[i], ss[i + 1], mm[i]) by {
            assert(pushed(states[i], states[i + 1], msgs[i]));
        }
        lemma_batch_pushes(ss, mm);
        assert(pushed(states[n], states[n + 1], msgs[n]));
        assert(msgs =~= mm.push(msgs[n]));
    }
}

/// Top-level protocol message between workers and coordinator.
#[derive(Debug, Clone)]
pub enum MessagePayload {
    /// A batch of vertex messages for a specific worker.
    VertexMessages { target_worker: WorkerId, messages: Vec<Message> },
    /// A worker signaling it has finished the given superstep.
    BarrierAck { worker_id: WorkerId, superstep: u64 },
}

} // verus!
