//! Configuration records for workers and jobs.

use vstd::prelude::*;
use crate::types::WorkerId;

verus! {

/// Configuration for a single worker process.
#[derive(Debug, Clone)]
pub struct WorkerConfig {
    pub id: WorkerId,
    pub coordinator_addr: String,
    pub worker_count: usize,
}

/// Configuration for a job.
#[derive(Debug, Clone)]
pub struct JobConfig {
    pub workers: usize,
    pub program_path: String,
    pub graph_path: String,
    pub partition: Option<PartitionConfig>,
}

/// Partition strategy configuration.
#[derive(Debug, Clone)]
pub enum PartitionConfig {
    Hash,
    CustomFile { path: String },
}

} // verus!
