use feather_server::job::{Job, JobError, JobState};

#[test]
fn pending_to_leased_ok() {
    let mut job = Job::new("id".into(), "default".into(), "task".into(), vec![], 0);
    assert!(job.transition_to(JobState::Leased).is_ok());
}

#[test]
fn pending_to_completed_invalid() {
    let mut job = Job::new("id".into(), "default".into(), "task".into(), vec![], 0);
    assert!(job.transition_to(JobState::Completed).is_err());
}

#[test]
fn new_job_is_pending_first_attempt() {
    let job = Job::new_at("j".into(), "q".into(), "n".into(), vec![1, 2], 7, 1_000);
    assert_eq!(job.state, JobState::Pending);
    assert_eq!(job.attempt, 1);
    assert_eq!(job.priority, 7);
    assert_eq!(job.created_at, 1_000);
    assert_eq!(job.updated_at, 1_000);
    assert_eq!(job.worker_id, None);
    assert_eq!(job.lease_expires_at, None);
    assert_eq!(job.lease_renewals, 0);
    assert!(job.workflow_run_id.is_empty());
    assert!(job.activity_id.is_empty());
}

#[test]
fn lifecycle_moves() {
    let mut job = Job::new_at("j".into(), "q".into(), "n".into(), vec![], 0, 5);
    assert!(job.transition_to_at(JobState::Leased, 6).is_ok());
    assert_eq!(job.updated_at, 6);
    assert!(job.transition_to_at(JobState::Pending, 7).is_ok());
    assert!(job.transition_to_at(JobState::Leased, 8).is_ok());
    assert!(job.transition_to_at(JobState::Failed, 9).is_ok());
    assert_eq!(job.state, JobState::Failed);
    let err = job.transition_to_at(JobState::Pending, 10).unwrap_err();
    assert_eq!(
        err,
        JobError::InvalidTransition { from: JobState::Failed, to: JobState::Pending }
    );
    assert_eq!(job.updated_at, 9);
    assert_eq!(job.state, JobState::Failed);
}

#[test]
fn completed_is_final() {
    let mut job = Job::new_at("j".into(), "q".into(), "n".into(), vec![], 0, 5);
    job.transition_to_at(JobState::Leased, 6).unwrap();
    job.transition_to_at(JobState::Completed, 7).unwrap();
    for to in [JobState::Pending, JobState::Leased, JobState::Completed, JobState::Failed] {
        assert!(job.transition_to_at(to, 8).is_err());
    }
}

#[test]
fn state_names_round_trip() {
    for s in [JobState::Pending, JobState::Leased, JobState::Completed, JobState::Failed] {
        assert_eq!(JobState::from_str(s.as_str()), Some(s));
    }
    assert_eq!(JobState::Completed.as_str(), "completed");
    assert_eq!(JobState::from_str("Pending"), None);
    assert_eq!(JobState::from_str(""), None);
}
