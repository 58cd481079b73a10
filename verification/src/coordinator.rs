//! The control plane's bookkeeping: barrier synchronization, the worker
//! registry, the coordinator's superstep counter, and the job registry.

use vstd::prelude::*;
use vstd::string::*;
use vstd::std_specs::iter::IteratorSpec;
use std::collections::{HashMap, HashSet};
use crate::superstep::Superstep;
use crate::table::NamedTable;
use crate::types::WorkerId;

verus! {

broadcast use vstd::std_specs::hash::group_hash_axioms;

/// Tracks which workers have reported completion of the current superstep.
/// No worker advances until every expected worker has reported.
#[derive(Debug, Default)]
pub struct Barrier {
    expected_workers: HashSet<WorkerId>,
    reported_workers: HashSet<WorkerId>,
}

impl Barrier {
    /// The workers that must report before the barrier opens.
    pub closed spec fn expected(&self) -> Set<WorkerId> {
        self.expected_workers@
    }

    /// The workers that have reported since the last reset.
    pub closed spec fn reported(&self) -> Set<WorkerId> {
        self.reported_workers@
    }

    pub fn new(expected_workers: Vec<WorkerId>) -> (r: Self)
        ensures
            r.expected() == expected_workers@.to_set(),
            r.reported() == Set::<WorkerId>::empty(),
    {
        let mut expected: HashSet<WorkerId> = HashSet::new();
        for i in 0..expected_workers.len()
            invariant
                expected@ == expected_workers@.take(i as int).to_set(),
        {
            expected.insert(expected_workers[i]);
            proof {
                assert(expected_workers@.take(i + 1) =~= expected_workers@.take(i as int).push(
                    expected_workers@[i as int],
                ));
                expected_workers@.take(i as int).lemma_push_to_set_commute(expected_workers@[i as int]);
            }
        }
        assert(expected_workers@.take(expected_workers@.len() as int) =~= expected_workers@);
        Self { expected_workers: expected, reported_workers: HashSet::new() }
    }

    /// Record that a worker finished the current superstep.
    pub fn report(&mut self, worker_id: WorkerId)
        ensures
            final(self).expected() == old(self).expected(),
            final(self).reported() == old(self).reported().insert(worker_id),
    {
        self.reported_workers.insert(worker_id);
    }

    /// Whether every expected worker has reported.
    pub fn all_reported(&self) -> (r: bool)
        ensures
            r == self.expected().subset_of(self.reported()),
    {
        let ghost s = vstd::std_specs::hash::spec_hash_keys_iter(&self.expected_workers).remaining();
        for w in it: self.expected_workers.iter()
            invariant
                it.seq() == s,
                s.unref().to_set() == self.expected_workers@,
                forall|j: int| 0 <= j < it.index() ==> self.reported_workers@.contains(*#[trigger] s[j]),
        {
            if !self.reported_workers.contains(w) {
                assert(s.unref().to_set().contains(*w)) by {
                    assert(s.unref()[it.index() as int] == *w);
                }
                return false;
            }
        }
        assert forall|w: WorkerId| self.expected_workers@.contains(w) implies self.reported_workers@.contains(w) by {
            assert(s.unref().to_set().contains(w));
            let j = choose|j: int| 0 <= j < s.unref().len() && s.unref()[j] == w;
            assert(*s[j] == w);
        }
        true
    }

    /// Start the next superstep: nobody has reported yet.
    pub fn reset(&mut self)
        ensures
            final(self).expected() == old(self).expected(),
            final(self).reported() == Set::<WorkerId>::empty(),
    {
        self.reported_workers.clear();
    }
}

/// `after` is `before` once worker `w` has reported, as `report` says.
pub open spec fn reported_by(before: Barrier, after: Barrier, w: WorkerId) -> bool {
    after.expected() == before.expected() && after.reported() == before.reported().insert(w)
}

/// From a barrier that nobody has reported to (fresh from `new`, or just
/// `reset`), after the reports of `rs` in order the reported set is the
/// set of `rs`, the expected set is unchanged, and the barrier is open
/// exactly when every expected worker is among `rs` (reports of other
/// workers change nothing; with none expected it is open at once).
pub proof fn lemma_barrier_reports(states: Seq<Barrier>, rs: Seq<WorkerId>)
    requires
        states.len() == rs.len() + 1,
        states[0].reported() == Set::<WorkerId>::empty(),
        forall|i: int| 0 <= i < rs.len() ==> reported_by(#[trigger] states[i], states[i + 1], rs[i]),
    ensures
        states.last().expected() == states[0].expected(),
        states.last().reported() == rs.to_set(),
        states.last().expected().subset_of(states.last().reported()) == states[0].expected().subset_of(rs.to_set()),
    decreases rs.len(),
{
    if rs.len() == 0 {
        assert(rs.to_set() =~= Set::<WorkerId>::empty());
    } else {
        let n = rs.len() - 1;
        let ss = states.drop_last();
        let rr = rs.drop_last();
        assert forall|i: int| 0 <= i < rr.len() implies reported_by(#[trigger] ss[i], ss[i + 1], rr[i]) by {
            assert(reported_by(states[i], states[i + 1], rs[i]));
        }
        lemma_barrier_reports(ss, rr);
        assert(reported_by(states[n], states[n + 1], rs[n]));
        assert(rs =~= rr.push(rs[n]));
        rr.lemma_push_to_set_commute(rs[n]);
    }
}

/// A barrier that nobody has reported to since its reset is open exactly
/// when no worker is expected.
pub proof fn lemma_barrier_after_reset(b: Barrier)
    requires
        b.reported() == Set::<WorkerId>::empty(),
    ensures
        b.expected().subset_of(b.reported()) == (b.expected() == Set::<WorkerId>::empty()),
{
    if b.expected().subset_of(b.reported()) {
        assert(b.expected() =~= Set::<WorkerId>::empty());
    }
}

/// The number of `true`s in `s`.
pub open spec fn count_true(s: Seq<bool>) -> nat
    decreases s.len(),
{
    if s.len() == 0 {
        0
    } else {
        count_true(s.drop_last()) + if s.last() {
            1nat
        } else {
            0nat
        }
    }
}

/// `after` is `before` once the superstep has advanced (`advance`), or
/// once a worker has registered (otherwise), as those calls say.
pub open spec fn coordinator_step(before: Coordinator, after: Coordinator, advance: bool) -> bool {
    if advance {
        after.current_superstep.step == before.current_superstep.step + 1
    } else {
        after.current_superstep.step == before.current_superstep.step
    }
}

/// From a fresh coordinator, after any sequence of advances and worker
/// registrations, the superstep is the number of advances.
pub proof fn lemma_coordinator_supersteps(states: Seq<Coordinator>, advances: Seq<bool>)
    requires
        states.len() == advances.len() + 1,
        states[0].current_superstep.step == 0,
        forall|i: int| 0 <= i < advances.len() ==> coordinator_step(#[trigger] states[i], states[i + 1], advances[i]),
    ensures
        states.last().current_superstep.step == count_true(advances),
    decreases advances.len(),
{
    if advances.len() > 0 {
        let n = advances.len() - 1;
        let ss = states.drop_last();
        let aa = advances.drop_last();
        assert forall|i: int| 0 <= i < aa.len() implies coordinator_step(#[trigger] ss[i], ss[i + 1], aa[i]) by {
            assert(coordinator_step(states[i], states[i + 1], advances[i]));
        }
        lemma_coordinator_supersteps(ss, aa);
        assert(coordinator_step(states[n], states[n + 1], advances[n]));
    }
}

/// Metadata about a registered worker.
#[derive(Debug, Clone)]
pub struct WorkerInfo {
    pub id: WorkerId,
    pub address: String,
    pub vertex_count: u64,
}

/// Registry of active workers.
#[derive(Debug, Default)]
pub struct WorkerRegistry {
    workers: HashMap<WorkerId, WorkerInfo>,
}

impl WorkerRegistry {
    /// The registered workers by id.
    pub closed spec fn workers(&self) -> Map<WorkerId, WorkerInfo> {
        self.workers@
    }

    pub fn new() -> (r: Self)
        ensures
            r.workers() == Map::<WorkerId, WorkerInfo>::empty(),
            r.workers().dom().finite(),
    {
        Self { workers: HashMap::new() }
    }

    /// Register a worker, replacing an earlier registration under its id.
    pub fn register(&mut self, id: WorkerId, info: WorkerInfo)
        ensures
            final(self).workers() == old(self).workers().insert(id, info),
            old(self).workers().dom().finite(),
            final(self).workers().dom().finite(),
    {
        self.workers.insert(id, info);
    }

    pub fn get(&self, id: WorkerId) -> (r: Option<&WorkerInfo>)
        ensures
            match r {
                Some(info) => self.workers().contains_key(id) && *info == self.workers()[id],
                None => !self.workers().contains_key(id),
            },
    {
        self.workers.get(&id)
    }

    /// Number of distinct registered workers.
    pub fn worker_count(&self) -> (r: usize)
        ensures
            r == self.workers().len(),
            self.workers().dom().finite(),
    {
        self.workers.len()
    }
}

/// The coordinator: tracks workers and advances supersteps.
pub struct Coordinator {
    pub workers: WorkerRegistry,
    pub current_superstep: Superstep,
}

impl Coordinator {
    pub fn new() -> (r: Self)
        ensures
            r.workers.workers() == Map::<WorkerId, WorkerInfo>::empty(),
            r.current_superstep.step == 0,
    {
        Self { workers: WorkerRegistry::new(), current_superstep: Superstep::new(0) }
    }

    pub fn register_worker(&mut self, worker_id: WorkerId, info: WorkerInfo)
        ensures
            final(self).workers.workers() == old(self).workers.workers().insert(worker_id, info),
            final(self).current_superstep == old(self).current_superstep,
    {
        self.workers.register(worker_id, info);
    }

    pub fn advance_superstep(&mut self)
        requires
            old(self).current_superstep.step < u64::MAX,
        ensures
            final(self).current_superstep.step == old(self).current_superstep.step + 1,
            final(self).workers.workers() == old(self).workers.workers(),
    {
        self.current_superstep = self.current_superstep.next();
    }

    pub fn superstep(&self) -> (r: u64)
        ensures
            r == self.current_superstep.step,
    {
        self.current_superstep.step
    }
}

impl Default for Coordinator {
    fn default() -> (r: Self)
        ensures
            r.workers.workers() == Map::<WorkerId, WorkerInfo>::empty(),
            r.current_superstep.step == 0,
    {
        Self::new()
    }
}

/// Metadata about an active job.
#[derive(Debug, Clone)]
pub struct JobInfo {
    pub id: String,
    pub workers: Vec<WorkerId>,
    pub superstep: u64,
}

/// Registry of active jobs, keyed by job id.
pub struct JobManager {
    jobs: NamedTable<JobInfo>,
}

impl JobManager {
    #[verifier::type_invariant]
    spec fn inv(&self) -> bool {
        self.jobs.wf()
    }

    /// The registered jobs by id.
    pub closed spec fn jobs(&self) -> Map<Seq<char>, JobInfo> {
        self.jobs.map()
    }

    pub fn new() -> (r: Self)
        ensures
            r.jobs() == Map::<Seq<char>, JobInfo>::empty(),
    {
        Self { jobs: NamedTable::new() }
    }

    /// Register a job at superstep 0, replacing a job with the same id.
    pub fn register(&mut self, job_id: String, workers: Vec<WorkerId>)
        ensures
            final(self).jobs().dom() == old(self).jobs().dom().insert(job_id@),
            forall|k: Seq<char>|
                k != job_id@ && #[trigger] old(self).jobs().contains_key(k) ==> final(self).jobs()[k]
                    == old(self).jobs()[k],
            final(self).jobs()[job_id@].id@ == job_id@,
            final(self).jobs()[job_id@].workers == workers,
            final(self).jobs()[job_id@].superstep == 0,
    {
        proof {
            use_type_invariant(&*self);
        }
        let key = job_id.clone();
        let info = JobInfo { id: job_id, workers, superstep: 0 };
        let mut table = NamedTable::new();
        std::mem::swap(&mut table, &mut self.jobs);
        table.insert(key, info);
        self.jobs = table;
    }

    pub fn get(&self, job_id: &str) -> (r: Option<&JobInfo>)
        ensures
            match r {
                Some(info) => self.jobs().contains_key(job_id@) && *info == self.jobs()[job_id@],
                None => !self.jobs().contains_key(job_id@),
            },
    {
        proof {
            use_type_invariant(self);
        }
        self.jobs.get(job_id)
    }
}

impl Default for JobManager {
    fn default() -> (r: Self)
        ensures
            r.jobs() == Map::<Seq<char>, JobInfo>::empty(),
    {
        Self::new()
    }
}

/// Parameters of a submitted job, broadcast to the workers.
#[derive(Debug, Clone)]
pub struct JobParams {
    pub job_id: u32,
    pub algo: String,
    pub program: String,
    pub total_vertices: u64,
}

} // verus!
