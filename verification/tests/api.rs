use feather_server::api::{
    backoff_hint_ms, dequeue_wait_ms, DequeuePoll, PollAction, extension_ms, job_state_to_proto, jobs_limit,
    map_storage_err, nack_reason, queue_info, timestamp_parts, StatusCode,
};
use feather_server::job::JobState;
use feather_server::store::{QueueStats, StorageError};
use feather_server::worker::WorkerRecord;
use std::collections::HashMap;

#[test]
fn proto_states() {
    assert_eq!(job_state_to_proto(JobState::Pending), 1);
    assert_eq!(job_state_to_proto(JobState::Leased), 2);
    assert_eq!(job_state_to_proto(JobState::Completed), 3);
    assert_eq!(job_state_to_proto(JobState::Failed), 4);
}

#[test]
fn timestamps_round_down() {
    assert_eq!(timestamp_parts(1_700_000_000_123), (1_700_000_000, 123_000_000));
    assert_eq!(timestamp_parts(-1), (-1, 999_000_000));
    assert_eq!(timestamp_parts(0), (0, 0));
    assert_eq!(timestamp_parts(i64::MIN), (i64::MIN.div_euclid(1000), (i64::MIN.rem_euclid(1000) * 1_000_000) as i32));
}

#[test]
fn storage_errors_to_status() {
    assert_eq!(map_storage_err(StorageError::NotFound), (StatusCode::NotFound, "not found".to_string()));
    assert_eq!(map_storage_err(StorageError::PreconditionFailed("x".into())), (StatusCode::FailedPrecondition, "x".to_string()));
    assert_eq!(map_storage_err(StorageError::Redis("down".into())), (StatusCode::Unavailable, "down".to_string()));
    assert_eq!(map_storage_err(StorageError::Other("bad".into())), (StatusCode::InvalidArgument, "bad".to_string()));
}

#[test]
fn request_defaults() {
    assert_eq!(dequeue_wait_ms(0), 30_000);
    assert_eq!(dequeue_wait_ms(1_500), 1_500);
    assert_eq!(backoff_hint_ms(0), 1_000);
    assert_eq!(backoff_hint_ms(3), 3_000);
    assert_eq!(backoff_hint_ms(31), 30_000);
    assert_eq!(nack_reason(""), "nack");
    assert_eq!(nack_reason("timeout"), "timeout");
    assert_eq!(extension_ms(-1), 30_000);
    assert_eq!(extension_ms(5), 5);
    assert_eq!(jobs_limit(None), 50);
    assert_eq!(jobs_limit(Some(10)), 10);
    assert_eq!(jobs_limit(Some(500)), 200);
}

#[test]
fn queue_info_copies_counts() {
    let q = queue_info("default", QueueStats { pending: 5, leased: 2, completed: 100, failed: 1 });
    assert_eq!(q.name, "default");
    assert_eq!((q.pending, q.leased, q.completed, q.failed), (5, 2, 100, 1));
}

#[test]
fn worker_registration_and_heartbeat() {
    let mut labels = HashMap::new();
    labels.insert("zone".to_string(), "a".to_string());
    let mut r = WorkerRecord::registration("w1", vec!["default".into()], vec![], labels, HashMap::new(), 10);
    assert_eq!(r.status, "active");
    assert_eq!(r.registered_at, 10);
    assert_eq!(r.last_heartbeat_at, 10);
    r.record_heartbeat(25);
    assert_eq!(r.last_heartbeat_at, 25);
    assert_eq!(r.registered_at, 10);
    assert_eq!(r.labels.get("zone").map(String::as_str), Some("a"));
}

#[test]
fn dequeue_polls_until_the_deadline_then_hints_backoff() {
    let mut polls = DequeuePoll::new();
    for _ in 0..3 {
        match polls.after_poll(false, false) {
            PollAction::PollAgain { pause_ms } => assert_eq!(pause_ms, 500),
            _ => panic!("expected another poll"),
        }
    }
    assert_eq!(polls.empty_streak, 3);
    match polls.after_poll(false, true) {
        PollAction::GiveUp { backoff_hint_ms } => assert_eq!(backoff_hint_ms, 3_000),
        _ => panic!("expected to give up"),
    }
}

#[test]
fn dequeue_poll_delivers_a_found_job() {
    let mut polls = DequeuePoll::new();
    assert!(matches!(polls.after_poll(false, false), PollAction::PollAgain { .. }));
    assert!(matches!(polls.after_poll(true, true), PollAction::Deliver));
    assert_eq!(polls.empty_streak, 1);
}

#[test]
fn dequeue_poll_gives_up_at_once_past_the_deadline() {
    let mut polls = DequeuePoll::new();
    match polls.after_poll(false, true) {
        PollAction::GiveUp { backoff_hint_ms } => assert_eq!(backoff_hint_ms, 1_000),
        _ => panic!("expected to give up"),
    }
}
