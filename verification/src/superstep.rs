//! The superstep counter of the BSP model and the runtime configuration.

use vstd::prelude::*;

verus! {

/// The current superstep number. Superstep 0 is the initial state; at
/// superstep N the messages sent during superstep N-1 are available.
#[derive(Debug, Clone, Copy, PartialEq, Eq, Structural)]
pub struct Superstep {
    pub step: u64,
}

impl Superstep {
    /// Create a superstep with the given step number.
    pub fn new(step: u64) -> (s: Self)
        ensures
            s.step == step,
    {
        Self { step }
    }

    /// Return the next superstep (step + 1).
    pub fn next(&self) -> (s: Self)
        requires
            self.step < u64::MAX,
        ensures
            s.step == self.step + 1,
    {
        Self { step: self.step + 1 }
    }
}

/// Configuration of the execution runtime.
#[derive(Debug, Clone)]
pub struct RuntimeConfig {
    /// Number of worker processes in the cluster.
    pub worker_count: usize,
    /// Checkpoint every N supersteps; `None` disables checkpointing.
    pub checkpoint_interval: Option<u64>,
}

impl Default for RuntimeConfig {
    fn default() -> (r: Self)
        ensures
            r.worker_count == 4,
            r.checkpoint_interval == Some(10u64),
    {
        Self { worker_count: 4, checkpoint_interval: Some(10) }
    }
}

} // verus!
