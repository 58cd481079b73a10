//! Core vocabulary of the framework: vertex and worker identifiers, the
//! message record, the compute ABI records and their validation, and the
//! guest error codes.

use vstd::prelude::*;

verus! {

/// Largest accepted vertex value (1 MiB).
pub const MAX_VALUE_LEN: usize = 1048576;
/// Largest accepted number of edges (and of outgoing messages).
pub const MAX_EDGES_LEN: usize = 1000000;
/// Largest accepted number of incoming messages.
pub const MAX_MESSAGES_LEN: usize = 1000000;
/// Largest accepted message payload (64 KiB).
pub const MAX_MESSAGE_PAYLOAD_LEN: usize = 65536;

/// Unique identifier of a vertex.
pub type VertexId = u64;

/// Identifier of a worker process (0, 1, ..., worker_count - 1).
pub type WorkerId = u32;

/// A message sent from one vertex to another during a superstep.
#[derive(Debug, Clone)]
pub struct Message {
    pub source: VertexId,
    pub target: VertexId,
    pub payload: Vec<u8>,
}

/// Input of one vertex compute call.
#[derive(Debug, Clone)]
pub struct ComputeInput {
    pub vertex_id: VertexId,
    pub value: Vec<u8>,
    pub edges: Vec<VertexId>,
    pub messages: Vec<(VertexId, Vec<u8>)>,
    /// Current superstep (0-indexed).
    pub superstep: u64,
    /// Total vertices in the graph.
    pub total_vertices: u64,
}

/// Output of one vertex compute call: value update and outgoing messages.
#[derive(Debug, Clone)]
pub struct ComputeResultWire {
    pub new_value: Option<Vec<u8>>,
    pub outgoing: Vec<(VertexId, Vec<u8>)>,
}

/// Whether every payload of `msgs` is within the payload limit.
pub open spec fn payloads_within_limit(msgs: Seq<(VertexId, Vec<u8>)>) -> bool {
    forall|i: int| 0 <= i < msgs.len() ==> #[trigger] msgs[i].1@.len() <= MAX_MESSAGE_PAYLOAD_LEN
}

/// Checks every payload of `msgs` against the payload limit.
pub fn payloads_fit(msgs: &Vec<(VertexId, Vec<u8>)>) -> (r: bool)
    ensures
        r == payloads_within_limit(msgs@),
{
    let n = msgs.len();
    for i in 0..n
        invariant
            n == msgs@.len(),
            forall|j: int| 0 <= j < i ==> #[trigger] msgs@[j].1@.len() <= MAX_MESSAGE_PAYLOAD_LEN,
    {
        if msgs[i].1.len() > MAX_MESSAGE_PAYLOAD_LEN {
            assert(msgs@[i as int].1@.len() > MAX_MESSAGE_PAYLOAD_LEN);
            return false;
        }
    }
    true
}

impl ComputeInput {
    /// The first limit that the input breaks, in the order in which they are
    /// checked, as the description that `validate` returns.
    pub open spec fn violation(&self) -> Option<Seq<char>> {
        if self.value@.len() > MAX_VALUE_LEN {
            Some("value exceeds MAX_VALUE_LEN"@)
        } else if self.edges@.len() > MAX_EDGES_LEN {
            Some("edges exceeds MAX_EDGES_LEN"@)
        } else if self.messages@.len() > MAX_MESSAGES_LEN {
            Some("messages exceeds MAX_MESSAGES_LEN"@)
        } else if !payloads_within_limit(self.messages@) {
            Some("message payload exceeds MAX_MESSAGE_PAYLOAD_LEN"@)
        } else {
            None
        }
    }

    /// Validate the input against the ABI limits.
    pub fn validate(&self) -> (r: Result<(), &'static str>)
        ensures
            match r {
                Ok(()) => self.violation() is None,
                Err(e) => self.violation() == Some(e@),
            },
    {
        if self.value.len() > MAX_VALUE_LEN {
            return Err("value exceeds MAX_VALUE_LEN");
        }
        if self.edges.len() > MAX_EDGES_LEN {
            return Err("edges exceeds MAX_EDGES_LEN");
        }
        if self.messages.len() > MAX_MESSAGES_LEN {
            return Err("messages exceeds MAX_MESSAGES_LEN");
        }
        if payloads_fit(&self.messages) {
            Ok(())
        } else {
            Err("message payload exceeds MAX_MESSAGE_PAYLOAD_LEN")
        }
    }
}

impl ComputeResultWire {
    /// The first limit that the output breaks, in the order in which they are
    /// checked, as the description that `validate` returns.
    pub open spec fn violation(&self) -> Option<Seq<char>> {
        if self.new_value is Some && self.new_value->0@.len() > MAX_VALUE_LEN {
            Some("new_value exceeds MAX_VALUE_LEN"@)
        } else if self.outgoing@.len() > MAX_EDGES_LEN {
            Some("outgoing exceeds MAX_EDGES_LEN"@)
        } else if !payloads_within_limit(self.outgoing@) {
            Some("outgoing payload exceeds MAX_MESSAGE_PAYLOAD_LEN"@)
        } else {
            None
        }
    }

    /// Validate the output against the ABI limits.
    pub fn validate(&self) -> (r: Result<(), &'static str>)
        ensures
            match r {
                Ok(()) => self.violation() is None,
                Err(e) => self.violation() == Some(e@),
            },
    {
        if let Some(v) = &self.new_value {
            if v.len() > MAX_VALUE_LEN {
                return Err("new_value exceeds MAX_VALUE_LEN");
            }
        }
        if self.outgoing.len() > MAX_EDGES_LEN {
            return Err("outgoing exceeds MAX_EDGES_LEN");
        }
        if payloads_fit(&self.outgoing) {
            Ok(())
        } else {
            Err("outgoing payload exceeds MAX_MESSAGE_PAYLOAD_LEN")
        }
    }
}

/// Error codes that a compute guest returns in place of an output length.
#[derive(Debug, Clone, Copy, PartialEq, Eq, Structural)]
pub enum AbiErrorCode {
    Invalid,
    Deserialize,
    Serialize,
    OutputOverrun,
    Alloc,
    User,
}

impl AbiErrorCode {
    /// The wire number of each code.
    pub open spec fn code(self) -> int {
        match self {
            AbiErrorCode::Invalid => -1,
            AbiErrorCode::Deserialize => -2,
            AbiErrorCode::Serialize => -3,
            AbiErrorCode::OutputOverrun => -4,
            AbiErrorCode::Alloc => -5,
            AbiErrorCode::User => -6,
        }
    }

    pub fn as_i32(self) -> (r: i32)
        ensures
            r == self.code(),
    {
        match self {
            AbiErrorCode::Invalid => -1,
            AbiErrorCode::Deserialize => -2,
            AbiErrorCode::Serialize => -3,
            AbiErrorCode::OutputOverrun => -4,
            AbiErrorCode::Alloc => -5,
            AbiErrorCode::User => -6,
        }
    }

    pub fn from_i32(v: i32) -> (r: Option<Self>)
        ensures
            r is Some <==> -6 <= v <= -1,
            r matches Some(c) ==> c.code() == v,
    {
        if v == -1 {
            Some(AbiErrorCode::Invalid)
        } else if v == -2 {
            Some(AbiErrorCode::Deserialize)
        } else if v == -3 {
            Some(AbiErrorCode::Serialize)
        } else if v == -4 {
            Some(AbiErrorCode::OutputOverrun)
        } else if v == -5 {
            Some(AbiErrorCode::Alloc)
        } else if v == -6 {
            Some(AbiErrorCode::User)
        } else {
            None
        }
    }
}

/// Decoding the wire number of a code gives the code back.
pub proof fn lemma_abi_code_roundtrip(c: AbiErrorCode)
    ensures
        -6 <= c.code() <= -1,
        forall|d: AbiErrorCode| d.code() == c.code() ==> d == c,
{
}

} // verus!
