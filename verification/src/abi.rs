//! The strongly typed ABI records of the guest interface, with their own
//! validation limits and human-readable error descriptions.

use vstd::prelude::*;
use vstd::string::*;
use crate::text::{decimal, u64_to_decimal};
use crate::types::VertexId;

verus! {

/// Largest vertex value and payload accepted by this interface (64 KiB).
pub const ABI_MAX_BYTES: usize = 65536;
/// Largest number of edges accepted by this interface.
pub const ABI_MAX_EDGES: usize = 1000000;
/// Largest number of incoming messages accepted by this interface.
pub const ABI_MAX_MESSAGES: usize = 100000;

/// Input passed to vertex compute.
#[derive(Debug, Clone)]
pub struct ComputeInput {
    pub vertex_id: VertexId,
    /// Serialized vertex value (algorithm-specific)
    pub value: Vec<u8>,
    /// Outgoing edge targets
    pub edges: Vec<VertexId>,
    /// (source_vertex_id, serialized_message) from previous superstep
    pub messages: Vec<(VertexId, Vec<u8>)>,
}

/// Output from vertex compute.
#[derive(Debug, Clone)]
pub struct ComputeResultWire {
    /// Updated vertex value, or None to vote halt / no change
    pub new_value: Option<Vec<u8>>,
    /// (target_vertex_id, serialized_message) to send
    pub outgoing: Vec<(VertexId, Vec<u8>)>,
}

impl ComputeInput {
    /// The description of the first limit that the input breaks.
    pub open spec fn violation(&self) -> Option<Seq<char>> {
        if self.edges@.len() > ABI_MAX_EDGES {
            Some("edges count exceeds limit (1M)"@)
        } else if self.messages@.len() > ABI_MAX_MESSAGES {
            Some("messages count exceeds limit (100K)"@)
        } else if self.value@.len() > ABI_MAX_BYTES {
            Some("vertex value exceeds 64KB"@)
        } else {
            None
        }
    }

    /// Validate input before passing it to an algorithm.
    pub fn validate(&self) -> (r: Result<(), String>)
        ensures
            match r {
                Ok(()) => self.violation() is None,
                Err(e) => self.violation() == Some(e@),
            },
    {
        if self.edges.len() > ABI_MAX_EDGES {
            return Err(String::from_str("edges count exceeds limit (1M)"));
        }
        if self.messages.len() > ABI_MAX_MESSAGES {
            return Err(String::from_str("messages count exceeds limit (100K)"));
        }
        if self.value.len() > ABI_MAX_BYTES {
            return Err(String::from_str("vertex value exceeds 64KB"));
        }
        Ok(())
    }
}

/// Whether every payload of `msgs` fits in 64 KiB.
pub open spec fn abi_payloads_fit(msgs: Seq<(VertexId, Vec<u8>)>) -> bool {
    forall|i: int| 0 <= i < msgs.len() ==> #[trigger] msgs[i].1@.len() <= ABI_MAX_BYTES
}

fn abi_payloads_fit_exec(msgs: &Vec<(VertexId, Vec<u8>)>) -> (r: bool)
    ensures
        r == abi_payloads_fit(msgs@),
{
    let n = msgs.len();
    for i in 0..n
        invariant
            n == msgs@.len(),
            forall|j: int| 0 <= j < i ==> #[trigger] msgs@[j].1@.len() <= ABI_MAX_BYTES,
    {
        if msgs[i].1.len() > ABI_MAX_BYTES {
            assert(msgs@[i as int].1@.len() > ABI_MAX_BYTES);
            return false;
        }
    }
    true
}

impl ComputeResultWire {
    /// The description of the first limit that the output breaks, given
    /// the limit on the number of outgoing messages.
    pub open spec fn violation(&self, max_outgoing: usize) -> Option<Seq<char>> {
        if self.outgoing@.len() > max_outgoing {
            Some(
                "outgoing messages "@ + decimal(self.outgoing@.len()) + " exceed limit "@
                    + decimal(max_outgoing as nat),
            )
        } else if self.new_value is Some && self.new_value->0@.len() > ABI_MAX_BYTES {
            Some("new_value exceeds 64KB"@)
        } else if !abi_payloads_fit(self.outgoing@) {
            Some("outgoing payload exceeds 64KB"@)
        } else {
            None
        }
    }

    /// Validate output before serialization.
    pub fn validate(&self, max_outgoing: usize) -> (r: Result<(), String>)
        ensures
            match r {
                Ok(()) => self.violation(max_outgoing) is None,
                Err(e) => self.violation(max_outgoing) == Some(e@),
            },
    {
        if self.outgoing.len() > max_outgoing {
            let mut msg = String::from_str("outgoing messages ");
            let count = u64_to_decimal(self.outgoing.len() as u64);
            msg.append(count.as_str());
            msg.append(" exceed limit ");
            let limit = u64_to_decimal(max_outgoing as u64);
            msg.append(limit.as_str());
            return Err(msg);
        }
        if let Some(v) = &self.new_value {
            if v.len() > ABI_MAX_BYTES {
                return Err(String::from_str("new_value exceeds 64KB"));
            }
        }
        if !abi_payloads_fit_exec(&self.outgoing) {
            return Err(String::from_str("outgoing payload exceeds 64KB"));
        }
        Ok(())
    }
}

} // verus!
