//! The coordinator service's decisions, as a state machine: worker
//! registration, barrier accounting per superstep with termination
//! detection, job submission and result collection, and worker timeouts.
//! The network transport performs the actions that these methods return.

use vstd::prelude::*;
use vstd::string::*;
use vstd::std_specs::iter::IteratorSpec;
use std::collections::HashMap;
use crate::algo::{AlgoMetadata, Algorithm, PostFunction};
use crate::coordinator::JobParams;
use crate::sort::{sort_by_id, sort_pairs_by_id};
use crate::superstep::Superstep;
use crate::types::{VertexId, WorkerId};

verus! {

broadcast use vstd::std_specs::hash::group_hash_axioms;

/// Supersteps after which a job is terminated even if messages are still
/// being sent.
pub const MAX_SUPERSTEPS: u64 = 200;

/// The superstep number that announces termination.
pub const TERMINATED: u64 = 18446744073709551615;

/// A registered worker: its address and how many vertices it holds.
#[derive(Debug, Clone)]
pub struct RegisteredWorker {
    pub id: WorkerId,
    pub address: String,
    pub vertex_count: u64,
}

/// What the coordinator does after a worker reports a finished superstep.
#[derive(Debug, Clone, Copy, PartialEq, Eq, Structural)]
pub enum BarrierDecision {
    /// Not every worker has reported the superstep; `reported` have.
    Waiting { reported: usize },
    /// Every worker reported and some sent messages: announce `next`.
    Advance { next: u64 },
    /// Every worker reported and none sent a message, or the superstep cap
    /// was reached (`forced`): announce termination.
    Terminate { forced: bool },
}

/// The coordinator's state.
pub struct CoordinatorService {
    expected_workers: usize,
    workers: Vec<RegisteredWorker>,
    worker_last_seen: HashMap<WorkerId, u64>,
    current_superstep: Superstep,
    barrier_reported: HashMap<u64, HashMap<WorkerId, u64>>,
    next_job_id: u32,
    job_results: HashMap<u32, JobResultState>,
    verbose: bool,
}

/// A submitted job whose results are being collected.
#[derive(Debug)]
pub struct JobResultState {
    /// The algorithm name as submitted.
    pub algo: String,
    /// Each reporting worker's (vertex id, value) pairs, in the order in
    /// which the workers first reported.
    pub collected: Vec<(WorkerId, Vec<(VertexId, Vec<u8>)>)>,
}

/// The combined results of a finished job.
#[derive(Debug)]
pub struct JobOutcome {
    /// The algorithm name as submitted.
    pub algo: String,
    /// Every worker's (vertex id, value) pairs, post-processed.
    pub vertices: Vec<(VertexId, Vec<u8>)>,
}

/// What the coordinator does when a superstep waits too long on a worker.
#[derive(Debug)]
pub struct TimeoutAbort {
    /// The superstep whose barrier is abandoned.
    pub superstep: u64,
    /// The expected workers that have not reported it and have been silent
    /// for longer than the timeout, in increasing order.
    pub timed_out: Vec<WorkerId>,
    /// The job whose result is reported as failed, if any job is running.
    pub failed_job: Option<u32>,
}

/// No worker reports twice into the results of a job.
pub open spec fn distinct_reporters(c: Seq<(WorkerId, Vec<(VertexId, Vec<u8>)>)>) -> bool {
    forall|i: int, j: int| 0 <= i < j < c.len() ==> #[trigger] c[i].0 != #[trigger] c[j].0
}

/// No worker id occurs twice.
pub open spec fn distinct_ids(s: Seq<RegisteredWorker>) -> bool {
    forall|i: int, j: int| 0 <= i < j < s.len() ==> #[trigger] s[i].id != #[trigger] s[j].id
}

/// The reports of a superstep: worker to number of messages it sent.
pub open spec fn reports_of(barrier: Map<u64, Map<WorkerId, u64>>, superstep: u64) -> Map<WorkerId, u64> {
    if barrier.contains_key(superstep) {
        barrier[superstep]
    } else {
        Map::empty()
    }
}

/// Whether every report says that no message was sent.
pub open spec fn all_halted(reports: Map<WorkerId, u64>) -> bool {
    forall|w: WorkerId| #[trigger] reports.contains_key(w) ==> reports[w] == 0
}

impl CoordinatorService {
    /// Well-formedness: each worker is registered once.
    pub closed spec fn wf(&self) -> bool {
        &&& distinct_ids(self.workers@)
        &&& forall|j: u32| #[trigger] self.job_results@.contains_key(j) ==> distinct_reporters(self.job_results@[j].collected@)
    }

    /// The jobs whose results are still being collected.
    pub closed spec fn jobs(&self) -> Map<u32, JobResultState> {
        self.job_results@
    }

    /// Number of workers that a job needs.
    pub closed spec fn expected(&self) -> usize {
        self.expected_workers
    }

    /// The registered workers, in the order of first registration.
    pub closed spec fn workers(&self) -> Seq<RegisteredWorker> {
        self.workers@
    }

    /// When each worker was last heard from (milliseconds on the caller's clock).
    pub closed spec fn last_seen(&self) -> Map<WorkerId, u64> {
        self.worker_last_seen@
    }

    /// The superstep that workers are told to run.
    pub closed spec fn superstep(&self) -> u64 {
        self.current_superstep.step
    }

    /// Reports received so far, per superstep that is not complete yet.
    pub closed spec fn barrier(&self) -> Map<u64, Map<WorkerId, u64>> {
        self.barrier_reported@.map_values(|m: HashMap<WorkerId, u64>| m@)
    }

    /// The id that the next submitted job gets.
    pub closed spec fn next_job(&self) -> u32 {
        self.next_job_id
    }

    pub closed spec fn is_verbose(&self) -> bool {
        self.verbose
    }

    pub fn new(expected_workers: usize, verbose: bool) -> (r: Self)
        ensures
            r.wf(),
            r.expected() == expected_workers,
            r.workers() == Seq::<RegisteredWorker>::empty(),
            r.last_seen() == Map::<WorkerId, u64>::empty(),
            r.superstep() == 0,
            r.barrier() == Map::<u64, Map<WorkerId, u64>>::empty(),
            r.next_job() == 1,
            r.jobs() == Map::<u32, JobResultState>::empty(),
            r.is_verbose() == verbose,
    {
        let r = Self {
            expected_workers,
            workers: Vec::new(),
            worker_last_seen: HashMap::new(),
            current_superstep: Superstep::new(0),
            barrier_reported: HashMap::new(),
            next_job_id: 1,
            job_results: HashMap::new(),
            verbose,
        };
        assert(r.barrier() =~= Map::<u64, Map<WorkerId, u64>>::empty());
        r
    }

    /// The worker list after `worker_id` registers: its entry is replaced
    /// in place, or appended if it is new.
    pub open spec fn registered(
        workers: Seq<RegisteredWorker>,
        w: RegisteredWorker,
    ) -> Seq<RegisteredWorker> {
        if exists|i: int| 0 <= i < workers.len() && #[trigger] workers[i].id == w.id {
            workers.update(choose|i: int| 0 <= i < workers.len() && #[trigger] workers[i].id == w.id, w)
        } else {
            workers.push(w)
        }
    }

    /// A worker registers (or re-registers) at time `now`. Returns whether
    /// every expected worker is now registered, in which case the callers
    /// waiting for readiness are released.
    pub fn register_worker(&mut self, worker_id: WorkerId, address: String, vertex_count: u64, now: u64) -> (all_ready: bool)
        requires
            old(self).wf(),
        ensures
            final(self).wf(),
            final(self).workers() == Self::registered(
                old(self).workers(),
                RegisteredWorker { id: worker_id, address, vertex_count },
            ),
            final(self).last_seen() == old(self).last_seen().insert(worker_id, now),
            all_ready == (final(self).workers().len() >= final(self).expected()),
            final(self).expected() == old(self).expected(),
            final(self).superstep() == old(self).superstep(),
            final(self).barrier() == old(self).barrier(),
            final(self).next_job() == old(self).next_job(),
            final(self).jobs() == old(self).jobs(),
    {
        let entry = RegisteredWorker { id: worker_id, address, vertex_count };
        let ghost old_workers = self.workers@;
        let mut workers = Vec::new();
        std::mem::swap(&mut workers, &mut self.workers);
        match self.find_worker_in(&workers, worker_id) {
            Some(i) => {
                workers.set(i, entry);
                proof {
                    assert(exists|j: int| 0 <= j < old_workers.len() && #[trigger] old_workers[j].id == worker_id);
                    let c = choose|j: int| 0 <= j < old_workers.len() && #[trigger] old_workers[j].id == worker_id;
                    if c != i as int {
                        if c < i {
                            assert(old_workers[c].id != old_workers[i as int].id);
                        } else {
                            assert(old_workers[i as int].id != old_workers[c].id);
                        }
                    }
                    assert forall|a: int, b: int| 0 <= a < b < workers@.len() implies #[trigger] workers@[a].id
                        != #[trigger] workers@[b].id by {
                        assert(old_workers[a].id != old_workers[b].id);
                    }
                }
            },
            None => {
                workers.push(entry);
                proof {
                    assert forall|a: int, b: int| 0 <= a < b < workers@.len() implies #[trigger] workers@[a].id
                        != #[trigger] workers@[b].id by {
                        if b < old_workers.len() {
                            assert(old_workers[a].id != old_workers[b].id);
                        } else {
                            assert(old_workers[a].id != worker_id);
                        }
                    }
                }
            },
        }
        self.workers = workers;
        self.worker_last_seen.insert(worker_id, now);
        self.workers.len() >= self.expected_workers
    }

    fn find_worker_in(&self, workers: &Vec<RegisteredWorker>, worker_id: WorkerId) -> (r: Option<usize>)
        ensures
            match r {
                Some(i) => i < workers@.len() && workers@[i as int].id == worker_id,
                None => forall|i: int| 0 <= i < workers@.len() ==> #[trigger] workers@[i].id != worker_id,
            },
    {
        let n = workers.len();
        for i in 0..n
            invariant
                n == workers@.len(),
                forall|j: int| 0 <= j < i ==> #[trigger] workers@[j].id != worker_id,
        {
            if workers[i].id == worker_id {
                return Some(i);
            }
        }
        None
    }

    /// Whether every expected worker has registered.
    pub fn all_ready(&self) -> (r: bool)
        ensures
            r == (self.workers().len() >= self.expected()),
    {
        self.workers.len() >= self.expected_workers
    }

    /// The superstep that workers are told to run.
    pub fn current_superstep(&self) -> (r: u64)
        ensures
            r == self.superstep(),
    {
        self.current_superstep.step
    }

    /// The next superstep after a superstep whose reports are complete.
    pub open spec fn spec_decide(superstep: u64, reports: Map<WorkerId, u64>) -> BarrierDecision {
        if all_halted(reports) || superstep >= MAX_SUPERSTEPS {
            BarrierDecision::Terminate { forced: superstep >= MAX_SUPERSTEPS }
        } else {
            BarrierDecision::Advance { next: (superstep + 1) as u64 }
        }
    }

    /// A worker reports at time `now` that it finished `superstep` having
    /// sent `messages_sent` messages. Once every expected worker has
    /// reported the superstep, its reports are dropped and the coordinator
    /// either advances to the next superstep or, when no worker sent a
    /// message or the superstep cap is reached, terminates.
    pub fn report_superstep_done(&mut self, worker_id: WorkerId, superstep: u64, messages_sent: u64, now: u64) -> (d: BarrierDecision)
        requires
            old(self).wf(),
        ensures
            final(self).wf(),
            ({
                let reports = reports_of(old(self).barrier(), superstep).insert(worker_id, messages_sent);
                if reports.len() >= old(self).expected() {
                    &&& d == Self::spec_decide(superstep, reports)
                    &&& ((exists|w: WorkerId| #[trigger] reports.contains_key(w) && reports[w] != 0) && superstep
                        < MAX_SUPERSTEPS ==> d == (BarrierDecision::Advance { next: (superstep + 1) as u64 }))
                    &&& (d == (BarrierDecision::Terminate { forced: false }) ==> forall|w: WorkerId|
                        #[trigger] reports.contains_key(w) ==> reports[w] == 0)
                    &&& (superstep >= MAX_SUPERSTEPS ==> d == (BarrierDecision::Terminate { forced: true }))
                    &&& final(self).barrier() == old(self).barrier().remove(superstep)
                    &&& final(self).superstep() == match d {
                        BarrierDecision::Advance { next } => next,
                        _ => TERMINATED,
                    }
                } else {
                    &&& d == (BarrierDecision::Waiting { reported: reports.len() as usize })
                    &&& final(self).barrier() == old(self).barrier().insert(superstep, reports)
                    &&& final(self).superstep() == old(self).superstep()
                }
            }),
            final(self).last_seen() == old(self).last_seen().insert(worker_id, now),
            final(self).expected() == old(self).expected(),
            final(self).workers() == old(self).workers(),
            final(self).next_job() == old(self).next_job(),
            final(self).jobs() == old(self).jobs(),
    {
        self.worker_last_seen.insert(worker_id, now);
        let ghost old_barrier = self.barrier();
        let mut reports = match self.barrier_reported.remove(&superstep) {
            Some(m) => m,
            None => HashMap::new(),
        };
        reports.insert(worker_id, messages_sent);
        let count = reports.len();
        assert(reports@ == reports_of(old_barrier, superstep).insert(worker_id, messages_sent));
        if count >= self.expected_workers {
            proof {
                assert(self.barrier() =~= old_barrier.remove(superstep));
            }
            let halted = all_zero(&reports);
            if halted || superstep >= MAX_SUPERSTEPS {
                self.current_superstep = Superstep::new(TERMINATED);
                BarrierDecision::Terminate { forced: superstep >= MAX_SUPERSTEPS }
            } else {
                let next = superstep + 1;
                self.current_superstep = Superstep::new(next);
                BarrierDecision::Advance { next }
            }
        } else {
            let ghost rv = reports@;
            self.barrier_reported.insert(superstep, reports);
            proof {
                assert(self.barrier() =~= old_barrier.insert(superstep, rv));
            }
            BarrierDecision::Waiting { reported: count }
        }
    }
}



impl CoordinatorService {
    /// Once every worker has reported a superstep: below the cap, the job
    /// advances to the next superstep exactly when some worker sent a
    /// message, and stops (unforced) exactly when every report is zero; at
    /// the cap it stops, forced.
    pub proof fn lemma_barrier_decision(superstep: u64, reports: Map<WorkerId, u64>)
        ensures
            (exists|w: WorkerId| #[trigger] reports.contains_key(w) && reports[w] != 0) && superstep < MAX_SUPERSTEPS
                ==> Self::spec_decide(superstep, reports) == (BarrierDecision::Advance { next: (superstep + 1) as u64 }),
            (forall|w: WorkerId| #[trigger] reports.contains_key(w) ==> reports[w] == 0) && superstep < MAX_SUPERSTEPS
                ==> Self::spec_decide(superstep, reports) == (BarrierDecision::Terminate { forced: false }),
            Self::spec_decide(superstep, reports) == (BarrierDecision::Terminate { forced: false }) ==> forall|w: WorkerId|
                #[trigger] reports.contains_key(w) ==> reports[w] == 0,
            superstep >= MAX_SUPERSTEPS ==> Self::spec_decide(superstep, reports) == (BarrierDecision::Terminate {
                forced: true,
            }),
    {
    }
}

impl CoordinatorService {
    /// The total number of vertices held by the registered workers.
    pub open spec fn vertex_total(s: Seq<RegisteredWorker>) -> int
        decreases s.len(),
    {
        if s.len() == 0 {
            0
        } else {
            Self::vertex_total(s.drop_last()) + s.last().vertex_count
        }
    }

    /// `x` capped at the largest `u64`.
    pub open spec fn cap(x: int) -> u64 {
        if x > u64::MAX {
            u64::MAX
        } else {
            x as u64
        }
    }

    fn total_vertices(&self) -> (r: u64)
        ensures
            r == Self::cap(Self::vertex_total(self.workers@)),
    {
        let mut total: u64 = 0;
        let n = self.workers.len();
        for i in 0..n
            invariant
                n == self.workers@.len(),
                total == Self::cap(Self::vertex_total(self.workers@.take(i as int))),
        {
            proof {
                let t = self.workers@.take(i + 1);
                assert(t.drop_last() =~= self.workers@.take(i as int));
                assert(Self::vertex_total(t) >= 0) by {
                    Self::lemma_total_nonneg(t);
                }
                Self::lemma_total_nonneg(self.workers@.take(i as int));
            }
            total = total.saturating_add(self.workers[i].vertex_count);
        }
        assert(self.workers@.take(n as int) =~= self.workers@);
        total
    }

    proof fn lemma_total_nonneg(s: Seq<RegisteredWorker>)
        ensures
            Self::vertex_total(s) >= 0,
        decreases s.len(),
    {
        if s.len() > 0 {
            Self::lemma_total_nonneg(s.drop_last());
        }
    }

    /// Submit a job: it gets the next job id, the graph size is the sum of
    /// the registered workers' vertex counts (capped at the largest `u64`),
    /// its result collection starts empty, and the superstep restarts at 0.
    /// The caller announces the returned parameters to the workers.
    pub fn submit_job(&mut self, algo: String, program: String) -> (p: JobParams)
        requires
            old(self).wf(),
        ensures
            final(self).wf(),
            p.job_id == old(self).next_job(),
            p.algo@ == algo@,
            p.program@ == program@,
            p.total_vertices == Self::cap(Self::vertex_total(old(self).workers())),
            final(self).next_job() == if old(self).next_job() == u32::MAX {
                u32::MAX
            } else {
                (old(self).next_job() + 1) as u32
            },
            final(self).jobs().dom() == old(self).jobs().dom().insert(p.job_id),
            final(self).jobs()[p.job_id].algo@ == algo@,
            final(self).jobs()[p.job_id].collected@.len() == 0,
            forall|j: u32| j != p.job_id && #[trigger] old(self).jobs().contains_key(j) ==> final(self).jobs()[j] == old(self).jobs()[j],
            final(self).superstep() == 0,
            final(self).workers() == old(self).workers(),
            final(self).barrier() == old(self).barrier(),
            final(self).expected() == old(self).expected(),
            final(self).last_seen() == old(self).last_seen(),
    {
        let total_vertices = self.total_vertices();
        let job_id = self.next_job_id;
        self.next_job_id = self.next_job_id.saturating_add(1);
        let state = JobResultState { algo: algo.clone(), collected: Vec::new() };
        self.job_results.insert(job_id, state);
        self.current_superstep = Superstep::new(0);
        JobParams { job_id, algo, program, total_vertices }
    }
}

/// Every worker's results of a job, concatenated in reporting order.
pub open spec fn combined_results(c: Seq<(WorkerId, Vec<(VertexId, Vec<u8>)>)>) -> Seq<(VertexId, Vec<u8>)>
    decreases c.len(),
{
    if c.len() == 0 {
        Seq::empty()
    } else {
        combined_results(c.drop_last()) + c.last().1@
    }
}

/// A job's collected results after a worker reports: its entry is replaced
/// in place, or appended if it is the worker's first report.
pub open spec fn with_report(
    c: Seq<(WorkerId, Vec<(VertexId, Vec<u8>)>)>,
    worker_id: WorkerId,
    vertices: Vec<(VertexId, Vec<u8>)>,
) -> Seq<(WorkerId, Vec<(VertexId, Vec<u8>)>)> {
    if exists|i: int| 0 <= i < c.len() && #[trigger] c[i].0 == worker_id {
        c.update(choose|i: int| 0 <= i < c.len() && #[trigger] c[i].0 == worker_id, (worker_id, vertices))
    } else {
        c.push((worker_id, vertices))
    }
}

/// The post-function of an algorithm name as submitted; unknown names are
/// treated as connected components.
pub open spec fn post_of(algo: Seq<char>) -> PostFunction {
    match Algorithm::spec_parse(algo) {
        Some(a) => AlgoMetadata::spec_post(a),
        None => AlgoMetadata::spec_post(Algorithm::ConnectedComponents),
    }
}

fn find_reporter(c: &Vec<(WorkerId, Vec<(VertexId, Vec<u8>)>)>, worker_id: WorkerId) -> (r: Option<usize>)
    ensures
        match r {
            Some(i) => i < c@.len() && c@[i as int].0 == worker_id,
            None => forall|i: int| 0 <= i < c@.len() ==> #[trigger] c@[i].0 != worker_id,
        },
{
    let n = c.len();
    for i in 0..n
        invariant
            n == c@.len(),
            forall|j: int| 0 <= j < i ==> #[trigger] c@[j].0 != worker_id,
    {
        if c[i].0 == worker_id {
            return Some(i);
        }
    }
    None
}

fn concat_results(collected: Vec<(WorkerId, Vec<(VertexId, Vec<u8>)>)>) -> (r: Vec<(VertexId, Vec<u8>)>)
    ensures
        r@ == combined_results(collected@),
{
    let ghost c = collected@;
    assert(c.len() == collected.len());
    let mut combined: Vec<(VertexId, Vec<u8>)> = Vec::new();
    let mut src = collected;
    let mut rest: Vec<(WorkerId, Vec<(VertexId, Vec<u8>)>)> = Vec::new();
    while src.len() > 0
        invariant
            src@ == c.take(src@.len() as int),
            src@.len() <= c.len(),
            rest@.len() + src@.len() == c.len(),
            forall|i: int| 0 <= i < rest@.len() ==> #[trigger] rest@[i] == c[c.len() - 1 - i],
        decreases src@.len(),
    {
        let x = src.pop().unwrap();
        proof {
            assert(c.take(src@.len() as int + 1)[src@.len() as int] == x);
        }
        rest.push(x);
        proof {
            assert(src@ =~= c.take(src@.len() as int));
        }
    }
    let mut k: usize = 0;
    while rest.len() > 0
        invariant
            rest@.len() + k == c.len(),
            c.len() <= usize::MAX,
            forall|i: int| 0 <= i < rest@.len() ==> #[trigger] rest@[i] == c[c.len() - 1 - i],
            combined@ == combined_results(c.take(k as int)),
        decreases rest@.len(),
    {
        let (_, mut part) = rest.pop().unwrap();
        proof {
            assert(c.take(k + 1).drop_last() =~= c.take(k as int));
            assert(c.take(k + 1).last() == c[k as int]);
        }
        combined.append(&mut part);
        k = k + 1;
    }
    assert(c.take(c.len() as int) =~= c);
    combined
}

impl CoordinatorService {
    /// A worker reports its vertex results for a job. Reports for unknown
    /// jobs are ignored. Once every expected worker has reported, the job
    /// is removed and its combined results are returned: concatenated in
    /// reporting order, and stably sorted by vertex id unless the algorithm's
    /// post-function is plain concatenation.
    pub fn report_job_results(&mut self, job_id: u32, worker_id: WorkerId, vertices: Vec<(VertexId, Vec<u8>)>) -> (r: Option<JobOutcome>)
        requires
            old(self).wf(),
        ensures
            final(self).wf(),
            !old(self).jobs().contains_key(job_id) ==> r is None && final(self).jobs() == old(self).jobs(),
            old(self).jobs().contains_key(job_id) ==> ({
                let c = with_report(old(self).jobs()[job_id].collected@, worker_id, vertices);
                let algo = old(self).jobs()[job_id].algo@;
                if c.len() >= old(self).expected() {
                    &&& r is Some
                    &&& r->0.algo@ == algo
                    &&& final(self).jobs() == old(self).jobs().remove(job_id)
                    &&& r->0.vertices@ == if post_of(algo) == PostFunction::Concat {
                        combined_results(c)
                    } else {
                        sort_pairs_by_id(combined_results(c))
                    }
                } else {
                    &&& r is None
                    &&& final(self).jobs().dom() == old(self).jobs().dom()
                    &&& final(self).jobs()[job_id].algo@ == algo
                    &&& final(self).jobs()[job_id].collected@ == c
                    &&& forall|j: u32| j != job_id && #[trigger] old(self).jobs().contains_key(j) ==> final(self).jobs()[j] == old(self).jobs()[j]
                }
            }),
            final(self).workers() == old(self).workers(),
            final(self).barrier() == old(self).barrier(),
            final(self).superstep() == old(self).superstep(),
            final(self).expected() == old(self).expected(),
            final(self).next_job() == old(self).next_job(),
            final(self).last_seen() == old(self).last_seen(),
    {
        let ghost old_jobs = self.job_results@;
        let mut state = match self.job_results.remove(&job_id) {
            Some(st) => st,
            None => return None,
        };
        let ghost old_c = state.collected@;
        let ghost old_algo = state.algo@;
        let ghost v = vertices;
        // record the report
        match find_reporter(&state.collected, worker_id) {
            Some(i) => {
                proof {
                    assert(exists|j: int| 0 <= j < old_c.len() && #[trigger] old_c[j].0 == worker_id);
                    let c = choose|j: int| 0 <= j < old_c.len() && #[trigger] old_c[j].0 == worker_id;
                    if c != i as int {
                        if c < i {
                            assert(old_c[c].0 != old_c[i as int].0);
                        } else {
                            assert(old_c[i as int].0 != old_c[c].0);
                        }
                    }
                }
                state.collected.set(i, (worker_id, vertices));
            },
            None => {
                state.collected.push((worker_id, vertices));
            },
        }
        assert(state.collected@ == with_report(old_c, worker_id, v));
        assert(distinct_reporters(state.collected@)) by {
            assert forall|a: int, b: int| 0 <= a < b < state.collected@.len() implies #[trigger] state.collected@[a].0
                != #[trigger] state.collected@[b].0 by {
                if b < old_c.len() {
                    assert(old_c[a].0 != old_c[b].0);
                } else {
                    assert(old_c[a].0 != worker_id);
                }
            }
        }
        if state.collected.len() >= self.expected_workers {
            let JobResultState { algo, collected } = state;
            let combined = concat_results(collected);
            let algorithm = match Algorithm::parse(algo.as_str()) {
                Ok(a) => a,
                Err(_) => Algorithm::ConnectedComponents,
            };
            let meta = AlgoMetadata::for_algo(algorithm);
            let vertices = match meta.post {
                PostFunction::Concat => combined,
                _ => sort_by_id(combined),
            };
            proof {
                assert(self.job_results@ == old_jobs.remove(job_id));
            }
            Some(JobOutcome { algo, vertices })
        } else {
            self.job_results.insert(job_id, state);
            None
        }
    }
}

/// Whether worker `w` has been silent for longer than `timeout` at `now`:
/// never heard from, or last heard from more than `timeout` ago.
pub open spec fn silent_too_long(last_seen: Map<WorkerId, u64>, w: WorkerId, now: u64, timeout: u64) -> bool {
    !last_seen.contains_key(w) || now as int - last_seen[w] as int > timeout as int
}

/// The workers that hold up a superstep: expected (ids below the worker
/// count), missing from its reports, and silent for too long.
pub open spec fn timed_out_set(
    reports: Map<WorkerId, u64>,
    expected: usize,
    last_seen: Map<WorkerId, u64>,
    now: u64,
    timeout: u64,
) -> Set<WorkerId> {
    Set::new(
        |w: WorkerId|
            (w as int) < (expected as u32) as int && !reports.contains_key(w) && silent_too_long(
                last_seen,
                w,
                now,
                timeout,
            ),
    )
}

/// A worker that the coordinator expects, that has not reported a
/// superstep, and that has never been heard from is timed out, whatever
/// the time and the timeout; one heard from at `seen` is timed out exactly
/// when more than `timeout` has passed since.
pub proof fn lemma_never_seen_times_out(
    reports: Map<WorkerId, u64>,
    expected: usize,
    last_seen: Map<WorkerId, u64>,
    now: u64,
    timeout: u64,
    w: WorkerId,
)
    requires
        (w as int) < (expected as u32) as int,
        !reports.contains_key(w),
    ensures
        !last_seen.contains_key(w) ==> timed_out_set(reports, expected, last_seen, now, timeout).contains(w),
        last_seen.contains_key(w) ==> (timed_out_set(reports, expected, last_seen, now, timeout).contains(w) <==> now
            - last_seen[w] > timeout),
{
}

fn keys_u64<V>(m: &HashMap<u64, V>) -> (r: Vec<u64>)
    ensures
        forall|k: u64| #[trigger] m@.contains_key(k) <==> r@.contains(k),
{
    let ghost s = vstd::std_specs::hash::spec_keys_iter(m).remaining();
    let mut r: Vec<u64> = Vec::new();
    for k in it: m.keys()
        invariant
            it.seq() == s,
            s.unref().to_set() == m@.dom(),
            r@ == s.unref().take(it.index() as int),
    {
        r.push(*k);
        proof {
            assert(s.unref().take(it.index() + 1) =~= s.unref().take(it.index() as int).push(*k));
        }
    }
    proof {
        assert(r@ =~= s.unref());
        assert forall|k: u64| #[trigger] m@.contains_key(k) <==> r@.contains(k) by {
            assert(m@.dom().contains(k) == s.unref().to_set().contains(k));
        }
    }
    r
}

fn keys_u32<V>(m: &HashMap<u32, V>) -> (r: Vec<u32>)
    ensures
        forall|k: u32| #[trigger] m@.contains_key(k) <==> r@.contains(k),
{
    let ghost s = vstd::std_specs::hash::spec_keys_iter(m).remaining();
    let mut r: Vec<u32> = Vec::new();
    for k in it: m.keys()
        invariant
            it.seq() == s,
            s.unref().to_set() == m@.dom(),
            r@ == s.unref().take(it.index() as int),
    {
        r.push(*k);
        proof {
            assert(s.unref().take(it.index() + 1) =~= s.unref().take(it.index() as int).push(*k));
        }
    }
    proof {
        assert(r@ =~= s.unref());
        assert forall|k: u32| #[trigger] m@.contains_key(k) <==> r@.contains(k) by {
            assert(m@.dom().contains(k) == s.unref().to_set().contains(k));
        }
    }
    r
}

fn timed_out_workers(reports: &HashMap<WorkerId, u64>, expected: usize, last_seen: &HashMap<WorkerId, u64>, now: u64, timeout: u64) -> (r: Vec<WorkerId>)
    ensures
        forall|i: int, j: int| 0 <= i < j < r@.len() ==> #[trigger] r@[i] < #[trigger] r@[j],
        r@.to_set() == timed_out_set(reports@, expected, last_seen@, now, timeout),
{
    let limit: u32 = expected as u32;
    let mut r: Vec<WorkerId> = Vec::new();
    let ghost target = timed_out_set(reports@, expected, last_seen@, now, timeout);
    let mut w: u32 = 0;
    while w < limit
        invariant
            w <= limit,
            limit == expected as u32,
            target == timed_out_set(reports@, expected, last_seen@, now, timeout),
            forall|i: int, j: int| 0 <= i < j < r@.len() ==> #[trigger] r@[i] < #[trigger] r@[j],
            forall|i: int| 0 <= i < r@.len() ==> #[trigger] r@[i] < w,
            forall|x: WorkerId| #[trigger] r@.contains(x) <==> (x < w && target.contains(x)),
        decreases limit - w,
    {
        let silent = match last_seen.get(&w) {
            None => true,
            Some(seen) => now > *seen && now - *seen > timeout,
        };
        if !reports.contains_key(&w) && silent {
            let ghost before = r@;
            r.push(w);
            proof {
                assert(!reports@.contains_key(w));
                assert(silent_too_long(last_seen@, w, now, timeout));
                assert(target.contains(w));
                assert forall|x: WorkerId| #[trigger] r@.contains(x) <==> (x < w + 1 && target.contains(x)) by {
                    assert(r@ == before.push(w));
                    if r@.contains(x) && x != w {
                        let i = choose|i: int| 0 <= i < r@.len() && r@[i] == x;
                        assert(i != before.len());
                        assert(before[i] == x);
                        assert(before.contains(x));
                    }
                    if x < w && target.contains(x) {
                        assert(before.contains(x));
                        let i = choose|i: int| 0 <= i < before.len() && before[i] == x;
                        assert(r@[i] == x);
                    }
                    if x == w {
                        assert(r@[r@.len() - 1] == x);
                    }
                }
            }
        } else {
            proof {
                assert(!target.contains(w)) by {
                    if target.contains(w) {
                        assert(!reports@.contains_key(w));
                        assert(silent_too_long(last_seen@, w, now, timeout));
                        if last_seen@.contains_key(w) {
                            assert(now as int - last_seen@[w] as int > timeout as int);
                        }
                    }
                }
                assert forall|x: WorkerId| #[trigger] r@.contains(x) <==> (x < w + 1 && target.contains(x)) by {
                    if x == w {
                        assert(!target.contains(x));
                    }
                }
            }
        }
        w = w + 1;
    }
    proof {
        assert forall|x: WorkerId| #[trigger] target.contains(x) implies x < w by {}
        assert(r@.to_set() =~= target);
    }
    r
}

impl CoordinatorService {
    /// The supersteps still waiting for reports.
    pub open spec fn pending(&self, superstep: u64) -> bool {
        self.barrier().contains_key(superstep) && self.barrier()[superstep].len() < self.expected()
    }

    fn find_held_up(&self, now: u64, timeout: u64) -> (r: Option<(u64, Vec<WorkerId>)>)
        ensures
            match r {
                Some((step, late)) => {
                    &&& self.pending(step)
                    &&& late@.len() > 0
                    &&& late@.to_set() == timed_out_set(self.barrier()[step], self.expected(), self.last_seen(), now, timeout)
                    &&& forall|i: int, j: int| 0 <= i < j < late@.len() ==> #[trigger] late@[i] < #[trigger] late@[j]
                },
                None => forall|st: u64| #[trigger] self.pending(st) ==> timed_out_set(
                    self.barrier()[st],
                    self.expected(),
                    self.last_seen(),
                    now,
                    timeout,
                ) == Set::<WorkerId>::empty(),
            },
    {
        let steps = keys_u64(&self.barrier_reported);
        let n = steps.len();
        for idx in 0..n
            invariant
                n == steps@.len(),
                forall|k: u64| #[trigger] self.barrier_reported@.contains_key(k) <==> steps@.contains(k),
                forall|i: int| 0 <= i < idx ==> (#[trigger] self.pending(steps@[i]) ==> timed_out_set(
                    self.barrier()[steps@[i]],
                    self.expected(),
                    self.last_seen(),
                    now,
                    timeout,
                ) == Set::<WorkerId>::empty()),
        {
            let step = steps[idx];
            assert(steps@.contains(step));
            let reports = self.barrier_reported.get(&step).unwrap();
            if reports.len() < self.expected_workers {
                let late = timed_out_workers(reports, self.expected_workers, &self.worker_last_seen, now, timeout);
                if late.len() > 0 {
                    return Some((step, late));
                } else {
                    assert(late@.to_set() =~= Set::<WorkerId>::empty());
                }
            }
        }
        assert forall|st: u64| #[trigger] self.pending(st) implies timed_out_set(
            self.barrier()[st],
            self.expected(),
            self.last_seen(),
            now,
            timeout,
        ) == Set::<WorkerId>::empty() by {
            assert(steps@.contains(st));
            let i = choose|i: int| 0 <= i < steps@.len() && steps@[i] == st;
            assert(self.pending(steps@[i]));
        }
        None
    }

    /// Look at time `now` for a pending superstep held up by workers that
    /// have been silent for longer than `timeout`. If there is one, its
    /// barrier is abandoned, workers are told to terminate, and one running
    /// job (if any) is dropped so that its submitter can be told of the
    /// failure. Otherwise nothing changes.
    pub fn check_timeouts(&mut self, now: u64, timeout: u64) -> (r: Option<TimeoutAbort>)
        requires
            old(self).wf(),
        ensures
            final(self).wf(),
            match r {
                Some(a) => {
                    &&& old(self).pending(a.superstep)
                    &&& a.timed_out@.len() > 0
                    &&& a.timed_out@.to_set() == timed_out_set(
                        old(self).barrier()[a.superstep],
                        old(self).expected(),
                        old(self).last_seen(),
                        now,
                        timeout,
                    )
                    &&& forall|i: int, j: int| 0 <= i < j < a.timed_out@.len() ==> #[trigger] a.timed_out@[i] < #[trigger] a.timed_out@[j]
                    &&& forall|w: WorkerId|
                        (w as int) < (old(self).expected() as u32) as int && !old(self).barrier()[a.superstep].contains_key(w)
                            && !#[trigger] old(self).last_seen().contains_key(w) ==> a.timed_out@.contains(w)
                    &&& final(self).barrier() == old(self).barrier().remove(a.superstep)
                    &&& final(self).superstep() == TERMINATED
                    &&& match a.failed_job {
                        Some(j) => old(self).jobs().contains_key(j) && final(self).jobs() == old(self).jobs().remove(j),
                        None => old(self).jobs().dom() == Set::<u32>::empty() && final(self).jobs() == old(self).jobs(),
                    }
                },
                None => {
                    &&& forall|st: u64| #[trigger] old(self).pending(st) ==> timed_out_set(
                        old(self).barrier()[st],
                        old(self).expected(),
                        old(self).last_seen(),
                        now,
                        timeout,
                    ) == Set::<WorkerId>::empty()
                    &&& forall|st: u64, w: WorkerId|
                        #[trigger] old(self).pending(st) && (w as int) < (old(self).expected() as u32) as int
                            && !old(self).barrier()[st].contains_key(w) ==> #[trigger] old(self).last_seen().contains_key(w)
                    &&& final(self).barrier() == old(self).barrier()
                    &&& final(self).superstep() == old(self).superstep()
                    &&& final(self).jobs() == old(self).jobs()
                },
            },
            final(self).workers() == old(self).workers(),
            final(self).expected() == old(self).expected(),
            final(self).next_job() == old(self).next_job(),
            final(self).last_seen() == old(self).last_seen(),
    {
        let found = self.find_held_up(now, timeout);
        match found {
            None => {
                proof {
                    assert forall|st: u64, w: WorkerId|
                        #[trigger] self.pending(st) && (w as int) < (self.expected() as u32) as int
                            && !self.barrier()[st].contains_key(w) implies #[trigger] self.last_seen().contains_key(w) by {
                        if !self.last_seen().contains_key(w) {
                            lemma_never_seen_times_out(self.barrier()[st], self.expected(), self.last_seen(), now, timeout, w);
                        }
                    }
                }
                None
            },
            Some((step, late)) => {
                let ghost old_barrier = self.barrier();
                self.barrier_reported.remove(&step);
                proof {
                    assert(self.barrier() =~= old_barrier.remove(step));
                }
                self.current_superstep = Superstep::new(TERMINATED);
                let jobs = keys_u32(&self.job_results);
                let failed_job = if jobs.len() > 0 {
                    let j = jobs[0];
                    assert(jobs@.contains(j));
                    self.job_results.remove(&j);
                    Some(j)
                } else {
                    proof {
                        assert(self.job_results@.dom() =~= Set::<u32>::empty()) by {
                            assert forall|k: u32| !self.job_results@.contains_key(k) by {
                                if self.job_results@.contains_key(k) {
                                    assert(jobs@.contains(k));
                                }
                            }
                        }
                    }
                    None
                };
                proof {
                    assert forall|w: WorkerId|
                        (w as int) < (old(self).expected() as u32) as int && !old(self).barrier()[step].contains_key(w)
                            && !#[trigger] old(self).last_seen().contains_key(w) implies late@.contains(w) by {
                        lemma_never_seen_times_out(old(self).barrier()[step], old(self).expected(), old(self).last_seen(), now, timeout, w);
                        assert(late@.to_set().contains(w));
                    }
                }
                Some(TimeoutAbort { superstep: step, timed_out: late, failed_job })
            },
        }
    }
}

/// Whether every report in `m` says that no message was sent.
fn all_zero(m: &HashMap<WorkerId, u64>) -> (r: bool)
    ensures
        r == all_halted(m@),
{
    let ghost s = vstd::std_specs::hash::spec_hash_map_iter(m).remaining();
    for (k, v) in it: m.iter()
        invariant
            it.seq() == s,
            s.len() == m@.dom().len(),
            forall|i: int| 0 <= i < s.len() ==> m@.contains_key(*(#[trigger] s[i]).0) && m@[*s[i].0] == *s[i].1,
            forall|kk: WorkerId| #[trigger] m@.contains_key(kk) ==> s.contains((&kk, &m@[kk])),
            forall|i: int| 0 <= i < it.index() ==> *(#[trigger] s[i]).1 == 0,
    {
        if *v != 0 {
            assert(m@.contains_key(*s[it.index() as int].0));
            return false;
        }
    }
    assert forall|w: WorkerId| #[trigger] m@.contains_key(w) implies m@[w] == 0 by {
        assert(s.contains((&w, &m@[w])));
        let i = choose|i: int| 0 <= i < s.len() && s[i] == (&w, &m@[w]);
        assert(*s[i].1 == 0);
    }
    true
}

} // verus!
