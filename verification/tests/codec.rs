use feather_server::codec::{hash_to_job, job_to_hash};
use feather_server::job::{Job, JobState};

fn sample() -> Job {
    let mut j = Job::new_at("j-1".into(), "emails".into(), "send".into(), b"hi".to_vec(), -3, 1_700_000_000_000);
    j.state = JobState::Leased;
    j.worker_id = Some("w-9".into());
    j.lease_expires_at = Some(1_700_000_030_000);
    j.updated_at = 1_700_000_000_500;
    j.lease_renewals = 2;
    j
}

fn get<'a>(fields: &'a [(String, String)], k: &str) -> &'a str {
    fields.iter().find(|(n, _)| n == k).map(|(_, v)| v.as_str()).unwrap()
}

#[test]
fn fields_written_for_a_job() {
    let fields = job_to_hash(&sample());
    assert_eq!(fields.len(), 15);
    assert_eq!(get(&fields, "id"), "j-1");
    assert_eq!(get(&fields, "payload"), "aGk=");
    assert_eq!(get(&fields, "state"), "leased");
    assert_eq!(get(&fields, "priority"), "-3");
    assert_eq!(get(&fields, "attempt"), "1");
    assert_eq!(get(&fields, "worker_id"), "w-9");
    assert_eq!(get(&fields, "lease_expires_at"), "1700000030000");
    assert_eq!(get(&fields, "created_at"), "1700000000000");
    assert_eq!(get(&fields, "updated_at"), "1700000000500");
    assert_eq!(get(&fields, "failure_reason"), "");
    assert_eq!(get(&fields, "lease_renewals"), "2");
}

#[test]
fn a_stored_job_reads_back() {
    let job = sample();
    let back = hash_to_job(&job_to_hash(&job), 0).expect("job");
    assert_eq!(back.id, job.id);
    assert_eq!(back.queue, job.queue);
    assert_eq!(back.name, job.name);
    assert_eq!(back.payload, job.payload);
    assert_eq!(back.state, job.state);
    assert_eq!(back.priority, job.priority);
    assert_eq!(back.attempt, job.attempt);
    assert_eq!(back.worker_id, job.worker_id);
    assert_eq!(back.lease_expires_at, job.lease_expires_at);
    assert_eq!(back.created_at, job.created_at);
    assert_eq!(back.updated_at, job.updated_at);
    assert_eq!(back.failure_reason, None);
    assert_eq!(back.lease_renewals, 2);
}

fn pairs(v: &[(&str, &str)]) -> Vec<(String, String)> {
    v.iter().map(|(a, b)| (a.to_string(), b.to_string())).collect()
}

#[test]
fn required_fields_and_known_state() {
    let base = [("id", "x"), ("queue", "q"), ("name", "n"), ("state", "pending"), ("priority", "0"), ("attempt", "1")];
    assert!(hash_to_job(&pairs(&base), 5).is_some());
    for skip in 0..base.len() {
        let v: Vec<(&str, &str)> =
            base.iter().enumerate().filter(|(i, _)| *i != skip).map(|(_, p)| *p).collect();
        assert!(hash_to_job(&pairs(&v), 5).is_none());
    }
    let mut bad = base.to_vec();
    bad[3] = ("state", "done");
    assert!(hash_to_job(&pairs(&bad), 5).is_none());
}

#[test]
fn lenient_fields_fall_back() {
    let v = pairs(&[
        ("id", "x"),
        ("queue", "q"),
        ("name", "n"),
        ("state", "failed"),
        ("priority", "high"),
        ("attempt", "-1"),
        ("payload", "not base64!"),
        ("worker_id", ""),
        ("lease_expires_at", "999999999999999999"),
        ("created_at", "later"),
        ("failure_reason", "boom"),
    ]);
    let j = hash_to_job(&v, 77).expect("job");
    assert_eq!(j.state, JobState::Failed);
    assert_eq!(j.priority, 0);
    assert_eq!(j.attempt, 1);
    assert!(j.payload.is_empty());
    assert_eq!(j.worker_id, None);
    assert_eq!(j.lease_expires_at, None);
    assert_eq!(j.created_at, 77);
    assert_eq!(j.updated_at, 77);
    assert_eq!(j.failure_reason.as_deref(), Some("boom"));
    assert_eq!(j.workflow_run_id, "");
    assert_eq!(j.lease_renewals, 0);
}

#[test]
fn first_field_of_a_name_counts() {
    let v = pairs(&[
        ("id", "x"),
        ("queue", "q1"),
        ("queue", "q2"),
        ("name", "n"),
        ("state", "pending"),
        ("priority", "4"),
        ("attempt", "2"),
    ]);
    let j = hash_to_job(&v, 0).unwrap();
    assert_eq!(j.queue, "q1");
    assert_eq!(j.priority, 4);
    assert_eq!(j.attempt, 2);
}
