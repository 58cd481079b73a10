use pregel::results::{decode_value_for_json, timeout_message, ValueJson};
use pregel::service::{BarrierDecision, CoordinatorService, MAX_SUPERSTEPS, TERMINATED};

fn ready_service() -> CoordinatorService {
    let mut s = CoordinatorService::new(2, false);
    assert!(!s.register_worker(0, "127.0.0.1:5001".into(), 3, 0));
    assert!(!s.all_ready());
    assert!(s.register_worker(1, "127.0.0.1:5002".into(), 4, 0));
    assert!(s.all_ready());
    s
}

#[test]
fn re_registration_does_not_count_twice() {
    let mut s = CoordinatorService::new(2, true);
    assert!(!s.register_worker(0, "a".into(), 3, 0));
    assert!(!s.register_worker(0, "b".into(), 5, 1));
    assert!(s.register_worker(1, "c".into(), 1, 2));
    let p = s.submit_job("cc".into(), String::new());
    assert_eq!(p.total_vertices, 6);
}

#[test]
fn barrier_advances_then_terminates() {
    let mut s = ready_service();
    assert_eq!(s.current_superstep(), 0);
    assert_eq!(s.report_superstep_done(0, 0, 5, 1), BarrierDecision::Waiting { reported: 1 });
    assert_eq!(s.report_superstep_done(0, 0, 5, 1), BarrierDecision::Waiting { reported: 1 });
    assert_eq!(s.report_superstep_done(1, 0, 0, 1), BarrierDecision::Advance { next: 1 });
    assert_eq!(s.current_superstep(), 1);
    assert_eq!(s.report_superstep_done(1, 1, 0, 2), BarrierDecision::Waiting { reported: 1 });
    assert_eq!(s.report_superstep_done(0, 1, 0, 2), BarrierDecision::Terminate { forced: false });
    assert_eq!(s.current_superstep(), TERMINATED);
}

#[test]
fn superstep_cap_forces_termination() {
    let mut s = ready_service();
    assert_eq!(s.report_superstep_done(0, MAX_SUPERSTEPS, 3, 1), BarrierDecision::Waiting { reported: 1 });
    assert_eq!(s.report_superstep_done(1, MAX_SUPERSTEPS, 3, 1), BarrierDecision::Terminate { forced: true });
    assert_eq!(s.current_superstep(), u64::MAX);
}

#[test]
fn job_results_are_combined_and_sorted() {
    let mut s = ready_service();
    let p = s.submit_job("cc".into(), "prog.wasm".into());
    assert_eq!(p.job_id, 1);
    assert_eq!(p.algo, "cc");
    assert_eq!(p.program, "prog.wasm");
    assert_eq!(p.total_vertices, 7);
    assert_eq!(s.current_superstep(), 0);
    assert!(s.report_job_results(1, 0, vec![(3, vec![3]), (1, vec![1])]).is_none());
    let out = s.report_job_results(1, 1, vec![(2, vec![2])]).unwrap();
    assert_eq!(out.algo, "cc");
    assert_eq!(out.vertices, vec![(1, vec![1]), (2, vec![2]), (3, vec![3])]);
    // the job is finished: later reports are ignored
    assert!(s.report_job_results(1, 0, vec![]).is_none());
}

#[test]
fn pagerank_results_keep_report_order() {
    let mut s = ready_service();
    let p = s.submit_job("pagerank".into(), String::new());
    assert!(s.report_job_results(p.job_id, 1, vec![(5, vec![5]), (2, vec![2])]).is_none());
    // a second report from the same worker replaces its first
    assert!(s.report_job_results(p.job_id, 1, vec![(4, vec![4])]).is_none());
    let out = s.report_job_results(p.job_id, 0, vec![(1, vec![1])]).unwrap();
    assert_eq!(out.vertices, vec![(4, vec![4]), (1, vec![1])]);
}

#[test]
fn unknown_jobs_are_ignored() {
    let mut s = ready_service();
    assert!(s.report_job_results(42, 0, vec![(1, vec![1])]).is_none());
    let a = s.submit_job("sp".into(), String::new());
    let b = s.submit_job("sp".into(), String::new());
    assert_eq!((a.job_id, b.job_id), (1, 2));
}

#[test]
fn silent_workers_time_out() {
    let mut s = ready_service();
    let job = s.submit_job("cc".into(), String::new());
    assert_eq!(s.report_superstep_done(0, 0, 1, 50), BarrierDecision::Waiting { reported: 1 });
    // worker 1 was last seen at time 0
    assert!(s.check_timeouts(20, 30).is_none());
    let abort = s.check_timeouts(100, 30).unwrap();
    assert_eq!(abort.superstep, 0);
    assert_eq!(abort.timed_out, vec![1]);
    assert_eq!(abort.failed_job, Some(job.job_id));
    assert_eq!(s.current_superstep(), TERMINATED);
    assert!(s.check_timeouts(200, 30).is_none());
}

#[test]
fn result_values_for_json() {
    assert_eq!(decode_value_for_json(&5u64.to_le_bytes()), ValueJson::Number(5));
    let mut longer = 7u64.to_le_bytes().to_vec();
    longer.push(1);
    assert_eq!(decode_value_for_json(&longer), ValueJson::Number(7));
    assert_eq!(decode_value_for_json(&[1, 2, 3]), ValueJson::Base64("AQID".to_string()));
    assert_eq!(decode_value_for_json(&[]), ValueJson::Base64(String::new()));
    assert_eq!(decode_value_for_json(&[0xff; 4]), ValueJson::Base64("/////w==".to_string()));
}

#[test]
fn timeout_messages() {
    assert_eq!(timeout_message(&vec![1]), "Worker(s) [1] timed out");
    assert_eq!(timeout_message(&vec![0, 2, 3]), "Worker(s) [0, 2, 3] timed out");
    assert_eq!(timeout_message(&vec![]), "Worker(s) [] timed out");
}
