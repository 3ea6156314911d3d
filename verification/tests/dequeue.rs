use feather_server::dequeue::{ClaimScan, DequeueAction, DequeueRun};
use feather_server::job::Job;

fn job(id: &str) -> Job {
    Job::new_at(id.into(), "default".into(), "batch".into(), vec![], 0, 1_000)
}

fn is_try_claim(a: &DequeueAction) -> bool {
    matches!(a, DequeueAction::TryClaim)
}

fn is_finish(a: &DequeueAction) -> bool {
    matches!(a, DequeueAction::Finish)
}

#[test]
fn batch_of_three_claims_three_then_stops() {
    let mut run = DequeueRun::new(3, 30_000);
    assert!(is_try_claim(&run.next_action()));
    assert!(is_try_claim(&run.after_try_claim(Some(job("a")), 29, 0)));
    assert!(is_try_claim(&run.after_try_claim(Some(job("b")), 29, 0)));
    assert!(is_finish(&run.after_try_claim(Some(job("c")), 29, 0)));
    assert!(!run.wants_more());
    let ids: Vec<String> = run.into_jobs().into_iter().map(|j| j.id).collect();
    assert_eq!(ids, vec!["a", "b", "c"]);
}

#[test]
fn batch_size_is_clamped() {
    let mut run = DequeueRun::new(0, 0);
    assert!(is_finish(&run.after_try_claim(Some(job("a")), 0, 0)));
    assert_eq!(run.into_jobs().len(), 1);

    let mut run = DequeueRun::new(1_000, 0);
    for i in 0..63 {
        let a = run.after_try_claim(Some(job(&format!("j{i}"))), 0, 0);
        assert!(is_try_claim(&a));
    }
    assert!(is_finish(&run.after_try_claim(Some(job("last")), 0, 0)));
    assert_eq!(run.into_jobs().len(), 64);
}

#[test]
fn no_wait_stops_when_nothing_is_pending() {
    let mut run = DequeueRun::new(5, 0);
    assert!(is_finish(&run.after_try_claim(None, 10, 0)));
    assert!(run.into_jobs().is_empty());
}

#[test]
fn past_deadline_stops_when_nothing_is_pending() {
    let mut run = DequeueRun::new(5, 2_000);
    assert!(is_finish(&run.after_try_claim(None, 0, 0)));
}

#[test]
fn waits_the_seconds_left_clamped() {
    let mut run = DequeueRun::new(5, 60_000);
    match run.after_try_claim(None, 45, 0) {
        DequeueAction::Block { seconds } => assert_eq!(seconds, 30),
        _ => panic!("expected a wait"),
    }
    match run.after_try_claim(None, 0, 400_000_000) {
        DequeueAction::Block { seconds } => assert_eq!(seconds, 1),
        _ => panic!("expected a wait"),
    }
    match run.after_try_claim(None, 7, 0) {
        DequeueAction::Block { seconds } => assert_eq!(seconds, 7),
        _ => panic!("expected a wait"),
    }
}

#[test]
fn a_popped_id_is_claimed_by_id() {
    let mut run = DequeueRun::new(2, 5_000);
    let popped = Some(("fe:ns:queue:emails:pending".to_string(), "j9".to_string()));
    match run.after_block(popped) {
        DequeueAction::ClaimById { queue, job_id } => {
            assert_eq!(queue, "emails");
            assert_eq!(job_id, "j9");
        }
        _ => panic!("expected a claim by id"),
    }
    assert!(is_try_claim(&run.after_claim_by_id(Some(job("j9")))));
    assert!(is_finish(&run.after_claim_by_id(Some(job("j10")))));
    assert_eq!(run.into_jobs().len(), 2);
}

#[test]
fn nothing_popped_ends_the_wait() {
    let run = DequeueRun::new(2, 5_000);
    assert!(is_finish(&run.after_block(None)));
}

#[test]
fn a_key_naming_no_queue_is_passed_over() {
    let run = DequeueRun::new(2, 5_000);
    let popped = Some(("not-a-pending-key".to_string(), "j1".to_string()));
    assert!(is_try_claim(&run.after_block(popped)));
}

#[test]
fn a_lost_claim_by_id_claims_again() {
    let mut run = DequeueRun::new(1, 5_000);
    assert!(is_try_claim(&run.after_claim_by_id(None)));
    assert!(run.wants_more());
}

#[test]
fn queues_are_tried_in_the_order_given() {
    let queues = vec!["high".to_string(), "low".to_string()];
    let mut scan = ClaimScan::new(&queues);
    assert_eq!(scan.next_queue().as_deref(), Some("high"));
    assert_eq!(scan.after_claim(None), None);
    assert_eq!(scan.next_queue().as_deref(), Some("low"));
    assert_eq!(scan.after_claim(Some("j7".into())).as_deref(), Some("j7"));
}

#[test]
fn a_scan_with_nothing_pending_ends() {
    let queues = vec!["only".to_string()];
    let mut scan = ClaimScan::new(&queues);
    assert!(scan.next_queue().is_some());
    assert_eq!(scan.after_claim(None), None);
    assert_eq!(scan.next_queue(), None);
}
