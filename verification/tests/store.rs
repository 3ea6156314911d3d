use feather_server::job::{Job, JobState};
use feather_server::store::{
    count_states, dequeue_batch_limit, dequeue_block_seconds, job_from_hash, lease_expiry,
    listing_stop_rank, script_source, select_listed, Command, JobListing, JobEvent, RedisLayout, Script,
    StorageError, SweepTally, QUEUE_STATS_SAMPLE,
};
use feather_server::codec::job_to_hash;

fn layout() -> RedisLayout {
    RedisLayout::new("ns", 100)
}

fn leased_job(worker: &str) -> Job {
    let mut j = Job::new_at("j1".into(), "q".into(), "t".into(), vec![], 0, 1_000);
    j.state = JobState::Leased;
    j.worker_id = Some(worker.into());
    j.lease_expires_at = Some(31_000);
    j
}

fn key_of(c: &Command) -> &str {
    match c {
        Command::HSetFields { key, .. }
        | Command::HSet { key, .. }
        | Command::LPush { key, .. }
        | Command::SAdd { key, .. }
        | Command::ZAdd { key, .. }
        | Command::ZRem { key, .. }
        | Command::ZRemRangeByRank { key, .. } => key,
    }
}

#[test]
fn enqueue_writes_in_one_transaction() {
    let job = Job::new_at("j1".into(), "q".into(), "t".into(), vec![1], 0, 1_234);
    let w = layout().enqueue_writes(&job, 1_300);
    assert_eq!(w.atomic.len(), 4);
    match &w.atomic[0] {
        Command::HSetFields { key, fields } => {
            assert_eq!(key, "fe:ns:job:j1");
            assert_eq!(fields.len(), job_to_hash(&job).len());
        }
        _ => panic!("fields first"),
    }
    assert!(matches!(&w.atomic[1], Command::LPush { key, value } if key == "fe:ns:queue:q:pending" && value == "j1"));
    assert!(matches!(&w.atomic[2], Command::SAdd { key, member } if key == "fe:ns:index:queues" && member == "q"));
    assert!(matches!(&w.atomic[3], Command::ZAdd { key, member, score } if key == "fe:ns:index:jobs:recent" && member == "j1" && *score == 1_234));
    assert!(matches!(&w.after[0], Command::ZRemRangeByRank { key, start: 0, stop: -101 } if key == "fe:ns:index:jobs:recent"));
    assert!(matches!(&w.after[1], Command::LPush { key, value } if key == "fe:ns:job:j1:events" && value == "1300:created"));
}

#[test]
fn ack_by_the_leasing_worker() {
    let w = layout().ack_writes("j1", &leased_job("w"), "w", 2_000).unwrap().expect("writes");
    assert_eq!(w.atomic.len(), 3);
    assert!(matches!(&w.atomic[0], Command::HSet { key, field, value } if key == "fe:ns:job:j1" && field == "state" && value == "completed"));
    assert!(matches!(&w.atomic[1], Command::HSet { field, value, .. } if field == "updated_at" && value == "2000"));
    assert!(matches!(&w.atomic[2], Command::ZRem { key, member } if key == "fe:ns:queue:q:leased" && member == "j1"));
    assert!(matches!(&w.after[0], Command::LPush { value, .. } if value == "2000:completed"));
}

#[test]
fn ack_of_a_completed_job_is_a_no_op() {
    let mut j = leased_job("w");
    j.state = JobState::Completed;
    assert!(matches!(layout().ack_writes("j1", &j, "someone-else", 5), Ok(None)));
}

#[test]
fn ack_refusals() {
    let r = layout().ack_writes("j1", &leased_job("w"), "x", 5);
    assert!(matches!(r, Err(StorageError::PreconditionFailed(m)) if m == "wrong worker"));
    let mut j = leased_job("w");
    j.state = JobState::Pending;
    let r = layout().ack_writes("j1", &j, "w", 5);
    assert!(matches!(r, Err(StorageError::PreconditionFailed(m)) if m == "job not leased"));
    j.state = JobState::Failed;
    let r = layout().ack_writes("j1", &j, "w", 5);
    assert!(matches!(r, Err(StorageError::PreconditionFailed(m)) if m == "job not leased"));
}

#[test]
fn nack_marks_failed_with_reason() {
    let w = layout().nack_writes("j1", &leased_job("w"), "w", "boom", 9).unwrap();
    assert!(matches!(&w.atomic[0], Command::HSet { field, value, .. } if field == "state" && value == "failed"));
    assert!(matches!(&w.atomic[1], Command::HSet { field, value, .. } if field == "failure_reason" && value == "boom"));
    assert!(matches!(&w.after[0], Command::LPush { value, .. } if value == "9:failed"));
    let r = layout().nack_writes("j1", &leased_job("w"), "other", "boom", 9);
    assert!(matches!(r, Err(StorageError::PreconditionFailed(m)) if m == "wrong worker"));
}

#[test]
fn extend_lease_counts_renewals() {
    let (w, exp) = layout().extend_lease_writes("j1", &leased_job("w"), "w", 30_000, 100, 10_000).unwrap();
    assert_eq!(exp, 40_000);
    assert!(matches!(&w.atomic[0], Command::HSet { field, value, .. } if field == "lease_expires_at" && value == "40000"));
    assert!(matches!(&w.atomic[1], Command::HSet { field, value, .. } if field == "lease_renewals" && value == "1"));
    assert!(matches!(&w.atomic[2], Command::ZAdd { key, score, .. } if key == "fe:ns:queue:q:leased" && *score == 40_000));
    assert!(w.after.is_empty());
    let mut j = leased_job("w");
    j.lease_renewals = 100;
    let r = layout().extend_lease_writes("j1", &j, "w", 30_000, 100, 10_000);
    assert!(matches!(r, Err(StorageError::PreconditionFailed(m)) if m == "max renewals"));
    let r = layout().extend_lease_writes("j1", &leased_job("w"), "x", 30_000, 100, 10_000);
    assert!(matches!(r, Err(StorageError::PreconditionFailed(m)) if m == "wrong worker"));
    let r = layout().extend_lease_writes("j1", &leased_job("w"), "w", u64::MAX / 2, 100, 10_000);
    assert!(matches!(r, Err(StorageError::Other(m)) if m == "lease out of range"));
}

#[test]
fn finished_jobs_are_neither_failed_nor_renewed() {
    for state in [JobState::Completed, JobState::Failed, JobState::Pending] {
        let mut j = leased_job("w");
        j.state = state;
        let r = layout().nack_writes("j1", &j, "w", "boom", 9);
        assert!(matches!(r, Err(StorageError::PreconditionFailed(m)) if m == "job not leased"));
        let r = layout().extend_lease_writes("j1", &j, "w", 30_000, 100, 10_000);
        assert!(matches!(r, Err(StorageError::PreconditionFailed(m)) if m == "job not leased"));
    }
}

#[test]
fn unheld_jobs_are_refused_as_wrong_worker() {
    let mut j = Job::new_at("j1".into(), "q".into(), "t".into(), vec![], 0, 1_000);
    let r = layout().nack_writes("j1", &j, "w", "boom", 9);
    assert!(matches!(r, Err(StorageError::PreconditionFailed(m)) if m == "wrong worker"));
    let r = layout().extend_lease_writes("j1", &j, "w", 30_000, 100, 10_000);
    assert!(matches!(r, Err(StorageError::PreconditionFailed(m)) if m == "wrong worker"));
    j.state = JobState::Completed;
    j.worker_id = Some("w".into());
    j.lease_renewals = 100;
    let r = layout().extend_lease_writes("j1", &j, "w", 30_000, 100, 10_000);
    assert!(matches!(r, Err(StorageError::PreconditionFailed(m)) if m == "max renewals"));
}

#[test]
fn script_calls_name_the_queue_keys() {
    let l = layout();
    let c = l.claim_next_call("q", "w", 40_000, 10_000);
    assert_eq!(c.script, Script::ClaimNext);
    assert_eq!(c.keys, vec!["fe:ns:queue:q:pending", "fe:ns:queue:q:leased"]);
    assert_eq!(c.args, vec!["w", "40000", "10000", "fe:ns:job:"]);
    let c = l.claim_by_id_call("q", "j1", "w", 40_000, 10_000);
    assert_eq!(c.keys, vec!["fe:ns:queue:q:leased"]);
    assert_eq!(c.args, vec!["j1", "w", "40000", "10000", "fe:ns:job:"]);
    let c = l.requeue_call("q", "j1", 50);
    assert_eq!(c.keys, vec!["fe:ns:queue:q:leased", "fe:ns:queue:q:pending"]);
    assert_eq!(c.args, vec!["j1", "fe:ns:job:j1", "50", "50"]);
    assert!(script_source(Script::ClaimNext).contains("RPOP"));
    assert!(script_source(Script::ClaimById).contains("'pending'"));
    assert!(script_source(Script::RequeueExpired).contains("RPUSH"));
}

#[test]
fn events_and_keys() {
    let c = layout().event_command("j1", JobEvent::LeaseExpired, 12);
    assert!(matches!(&c, Command::LPush { value, .. } if value == "12:lease_expired"));
    assert_eq!(key_of(&c), "fe:ns:job:j1:events");
}

#[test]
fn reading_a_job() {
    assert!(matches!(job_from_hash(&vec![], 0), Err(StorageError::NotFound)));
    let junk = vec![("id".to_string(), "x".to_string())];
    assert!(matches!(job_from_hash(&junk, 0), Err(StorageError::Other(m)) if m == "corrupt job"));
    let job = leased_job("w");
    let back = job_from_hash(&job_to_hash(&job), 0).unwrap();
    assert_eq!(back.worker_id.as_deref(), Some("w"));
}

#[test]
fn lease_expiry_from_now() {
    assert_eq!(lease_expiry(1_000, 500).unwrap(), 1_500);
    assert!(lease_expiry(i64::MAX - 10, 500).is_err());
}

fn job(id: &str, queue: &str, state: JobState) -> Job {
    let mut j = Job::new_at(id.into(), queue.into(), "t".into(), vec![], 0, 0);
    j.state = state;
    j
}

#[test]
fn listing_filters_and_limits() {
    let candidates = vec![
        Some(job("a", "q", JobState::Pending)),
        None,
        Some(job("b", "r", JobState::Pending)),
        Some(job("c", "q", JobState::Completed)),
        Some(job("d", "q", JobState::Pending)),
        Some(job("e", "q", JobState::Pending)),
    ];
    let got = select_listed(candidates, Some("q"), Some(JobState::Pending), 2);
    let ids: Vec<&str> = got.iter().map(|j| j.id.as_str()).collect();
    assert_eq!(ids, vec!["a", "d"]);
    let all = select_listed(vec![Some(job("a", "q", JobState::Failed)), None], None, None, 10);
    assert_eq!(all.len(), 1);
    assert_eq!(listing_stop_rank(50), 199);
    assert_eq!(listing_stop_rank(10), 99);
}

#[test]
fn listing_stops_wanting_once_full() {
    let mut listing = JobListing::new(Some("q"), None, 2);
    assert!(listing.wants_more());
    listing = listing.offer(Some(job("a", "r", JobState::Pending)));
    listing = listing.offer(None);
    listing = listing.offer(Some(job("b", "q", JobState::Leased)));
    assert!(listing.wants_more());
    listing = listing.offer(Some(job("c", "q", JobState::Failed)));
    assert!(!listing.wants_more());
    let ids: Vec<String> = listing.into_jobs().into_iter().map(|j| j.id).collect();
    assert_eq!(ids, vec!["b", "c"]);
}

#[test]
fn empty_listing_wants_nothing() {
    let listing = JobListing::new(None, None, 0);
    assert!(!listing.wants_more());
    assert!(listing.into_jobs().is_empty());
}

#[test]
fn stats_count_each_state() {
    let jobs = vec![
        job("a", "q", JobState::Pending),
        job("b", "q", JobState::Leased),
        job("c", "q", JobState::Leased),
        job("d", "q", JobState::Failed),
    ];
    let s = count_states(&jobs);
    assert_eq!((s.pending, s.leased, s.completed, s.failed), (1, 2, 0, 1));
    assert_eq!(QUEUE_STATS_SAMPLE, 10_000);
}

#[test]
fn dequeue_bounds() {
    assert_eq!(dequeue_batch_limit(0), 1);
    assert_eq!(dequeue_batch_limit(3), 3);
    assert_eq!(dequeue_batch_limit(1000), 64);
    assert_eq!(dequeue_block_seconds(0, 10, 0), None);
    assert_eq!(dequeue_block_seconds(5_000, 0, 0), None);
    assert_eq!(dequeue_block_seconds(5_000, 0, 5), Some(1));
    assert_eq!(dequeue_block_seconds(5_000, 4, 999), Some(4));
    assert_eq!(dequeue_block_seconds(60_000, 59, 0), Some(30));
}

#[test]
fn storage_errors_read_as_their_messages() {
    assert_eq!(StorageError::NotFound.message(), "not found");
    assert_eq!(
        StorageError::PreconditionFailed("wrong worker".into()).message(),
        "precondition failed: wrong worker"
    );
    assert_eq!(StorageError::Redis("down".into()).message(), "redis error: down");
    assert_eq!(StorageError::Other("corrupt job".into()).message(), "corrupt job");
}

#[test]
fn a_sweep_counts_the_jobs_it_puts_back() {
    let mut tally = SweepTally::new();
    assert!(tally.after_requeue(1));
    assert!(!tally.after_requeue(0));
    assert!(tally.after_requeue(1));
    assert_eq!(tally.released, 2);
}
