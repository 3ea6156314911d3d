//! Jobs and their lifecycle: pending → leased → completed | failed, and a
//! leased job back to pending when its lease runs out.
use vstd::prelude::*;
use crate::clock::{chrono_millis_valid, now_millis};
use crate::text::str_equals;

verus! {

#[derive(Clone, Copy, Debug, PartialEq, Eq, Structural)]
pub enum JobState {
    Pending,
    Leased,
    Completed,
    Failed,
}

/// The lowercase name of a state, as stored and shown.
pub open spec fn state_name(s: JobState) -> Seq<char> {
    match s {
        JobState::Pending => seq!['p', 'e', 'n', 'd', 'i', 'n', 'g'],
        JobState::Leased => seq!['l', 'e', 'a', 's', 'e', 'd'],
        JobState::Completed => seq!['c', 'o', 'm', 'p', 'l', 'e', 't', 'e', 'd'],
        JobState::Failed => seq!['f', 'a', 'i', 'l', 'e', 'd'],
    }
}

/// The state whose name is `t`, if any.
pub open spec fn state_from_name(t: Seq<char>) -> Option<JobState> {
    if t == state_name(JobState::Pending) {
        Some(JobState::Pending)
    } else if t == state_name(JobState::Leased) {
        Some(JobState::Leased)
    } else if t == state_name(JobState::Completed) {
        Some(JobState::Completed)
    } else if t == state_name(JobState::Failed) {
        Some(JobState::Failed)
    } else {
        None
    }
}

/// Every state is read back from its name.
pub proof fn lemma_state_name_round_trip(s: JobState)
    ensures
        state_from_name(state_name(s)) == Some(s),
{
    let p = state_name(JobState::Pending);
    let l = state_name(JobState::Leased);
    let c = state_name(JobState::Completed);
    let f = state_name(JobState::Failed);
    assert(p.len() == 7 && l.len() == 6 && c.len() == 9 && f.len() == 6);
    assert(l != f) by {
        assert(l[0] != f[0]);
    }
}

impl JobState {
    pub fn as_str(&self) -> (r: &'static str)
        ensures
            r@ == state_name(*self),
    {
        match self {
            JobState::Pending => {
                proof {
                    reveal_strlit("pending");
                }
                "pending"
            },
            JobState::Leased => {
                proof {
                    reveal_strlit("leased");
                }
                "leased"
            },
            JobState::Completed => {
                proof {
                    reveal_strlit("completed");
                }
                "completed"
            },
            JobState::Failed => {
                proof {
                    reveal_strlit("failed");
                }
                "failed"
            },
        }
    }

    pub fn from_str(s: &str) -> (r: Option<JobState>)
        ensures
            r == state_from_name(s@),
    {
        proof {
            reveal_strlit("pending");
            reveal_strlit("leased");
            reveal_strlit("completed");
            reveal_strlit("failed");
            assert("pending"@ =~= state_name(JobState::Pending));
            assert("leased"@ =~= state_name(JobState::Leased));
            assert("completed"@ =~= state_name(JobState::Completed));
            assert("failed"@ =~= state_name(JobState::Failed));
        }
        if str_equals(s, "pending") {
            Some(JobState::Pending)
        } else if str_equals(s, "leased") {
            Some(JobState::Leased)
        } else if str_equals(s, "completed") {
            Some(JobState::Completed)
        } else if str_equals(s, "failed") {
            Some(JobState::Failed)
        } else {
            None
        }
    }
}

/// The moves of the job lifecycle: a pending job is leased, and a leased job
/// completes, fails, or goes back to pending. Completed and failed are final.
pub open spec fn valid_transition(from: JobState, to: JobState) -> bool {
    match (from, to) {
        (JobState::Pending, JobState::Leased) => true,
        (JobState::Leased, JobState::Completed) => true,
        (JobState::Leased, JobState::Failed) => true,
        (JobState::Leased, JobState::Pending) => true,
        _ => false,
    }
}

/// A unit of work. Instants are milliseconds since the Unix epoch.
#[derive(Clone, Debug)]
pub struct Job {
    pub id: String,
    pub queue: String,
    pub name: String,
    pub payload: Vec<u8>,
    pub state: JobState,
    pub priority: i32,
    pub attempt: u32,
    pub worker_id: Option<String>,
    pub lease_expires_at: Option<i64>,
    pub created_at: i64,
    pub updated_at: i64,
    pub failure_reason: Option<String>,
    pub workflow_run_id: String,
    pub activity_id: String,
    pub lease_renewals: u32,
}

/// A job as plain values.
#[verifier::ext_equal]
pub struct JobView {
    pub id: Seq<char>,
    pub queue: Seq<char>,
    pub name: Seq<char>,
    pub payload: Seq<u8>,
    pub state: JobState,
    pub priority: i32,
    pub attempt: u32,
    pub worker_id: Option<Seq<char>>,
    pub lease_expires_at: Option<i64>,
    pub created_at: i64,
    pub updated_at: i64,
    pub failure_reason: Option<Seq<char>>,
    pub workflow_run_id: Seq<char>,
    pub activity_id: Seq<char>,
    pub lease_renewals: u32,
}

pub open spec fn opt_chars(o: Option<String>) -> Option<Seq<char>> {
    match o {
        Some(s) => Some(s@),
        None => None,
    }
}

impl View for Job {
    type V = JobView;

    open spec fn view(&self) -> JobView {
        JobView {
            id: self.id@,
            queue: self.queue@,
            name: self.name@,
            payload: self.payload@,
            state: self.state,
            priority: self.priority,
            attempt: self.attempt,
            worker_id: opt_chars(self.worker_id),
            lease_expires_at: self.lease_expires_at,
            created_at: self.created_at,
            updated_at: self.updated_at,
            failure_reason: opt_chars(self.failure_reason),
            workflow_run_id: self.workflow_run_id@,
            activity_id: self.activity_id@,
            lease_renewals: self.lease_renewals,
        }
    }
}

/// A freshly created job: pending, first attempt, unleased, created and
/// updated at `now`.
pub open spec fn new_job_view(
    id: Seq<char>,
    queue: Seq<char>,
    name: Seq<char>,
    payload: Seq<u8>,
    priority: i32,
    now: i64,
) -> JobView {
    JobView {
        id,
        queue,
        name,
        payload,
        state: JobState::Pending,
        priority,
        attempt: 1,
        worker_id: None,
        lease_expires_at: None,
        created_at: now,
        updated_at: now,
        failure_reason: None,
        workflow_run_id: Seq::<char>::empty(),
        activity_id: Seq::<char>::empty(),
        lease_renewals: 0,
    }
}

#[derive(Debug, PartialEq, Eq, Structural)]
pub enum JobError {
    InvalidTransition { from: JobState, to: JobState },
}

impl Job {
    /// A new pending job created at the instant `now`.
    pub fn new_at(
        id: String,
        queue: String,
        name: String,
        payload: Vec<u8>,
        priority: i32,
        now: i64,
    ) -> (r: Job)
        ensures
            r@ == new_job_view(id@, queue@, name@, payload@, priority, now),
    {
        Job {
            id,
            queue,
            name,
            payload,
            state: JobState::Pending,
            priority,
            attempt: 1,
            worker_id: None,
            lease_expires_at: None,
            created_at: now,
            updated_at: now,
            failure_reason: None,
            workflow_run_id: String::new(),
            activity_id: String::new(),
            lease_renewals: 0,
        }
    }

    /// A new pending job created now.
    pub fn new(id: String, queue: String, name: String, payload: Vec<u8>, priority: i32) -> (r: Job)
        ensures
            r@ == new_job_view(id@, queue@, name@, payload@, priority, r.created_at),
            r.created_at >= 0,
            chrono_millis_valid(r.created_at),
    {
        let now = now_millis();
        Job::new_at(id, queue, name, payload, priority, now)
    }

    /// Moves the job to `to` at the instant `now`, if the lifecycle allows it.
    pub fn transition_to_at(&mut self, to: JobState, now: i64) -> (r: Result<(), JobError>)
        ensures
            valid_transition(old(self).state, to) ==> r is Ok && final(self)@ == (JobView {
                state: to,
                updated_at: now,
                ..old(self)@
            }),
            !valid_transition(old(self).state, to) ==> r == Err::<(), JobError>(
                JobError::InvalidTransition { from: old(self).state, to },
            ) && final(self)@ == old(self)@,
    {
        let valid = match (self.state, to) {
            (JobState::Pending, JobState::Leased) => true,
            (JobState::Leased, JobState::Completed) => true,
            (JobState::Leased, JobState::Failed) => true,
            (JobState::Leased, JobState::Pending) => true,
            _ => false,
        };
        if !valid {
            return Err(JobError::InvalidTransition { from: self.state, to });
        }
        self.state = to;
        self.updated_at = now;
        Ok(())
    }

    /// Moves the job to `to` now, if the lifecycle allows it.
    pub fn transition_to(&mut self, to: JobState) -> (r: Result<(), JobError>)
        ensures
            valid_transition(old(self).state, to) ==> r is Ok && final(self)@ == (JobView {
                state: to,
                updated_at: final(self).updated_at,
                ..old(self)@
            }) && chrono_millis_valid(final(self).updated_at),
            !valid_transition(old(self).state, to) ==> r == Err::<(), JobError>(
                JobError::InvalidTransition { from: old(self).state, to },
            ) && final(self)@ == old(self)@,
    {
        let now = now_millis();
        self.transition_to_at(to, now)
    }
}

/// Completed and failed jobs never move again; every other state has a move.
pub proof fn lemma_final_states(s: JobState)
    ensures
        (s == JobState::Completed || s == JobState::Failed) <==> (forall|t: JobState|
            !#[trigger] valid_transition(s, t)),
{
    if s == JobState::Pending {
        assert(valid_transition(s, JobState::Leased));
    } else if s == JobState::Leased {
        assert(valid_transition(s, JobState::Completed));
    }
}


/// The shape of the lifecycle: a pending job can only be leased; only a
/// leased job goes back to pending; no move stays in place; and a leased job
/// can complete, fail, or go back to pending.
pub proof fn lemma_lifecycle_moves(from: JobState, to: JobState)
    ensures
        valid_transition(JobState::Pending, to) ==> to == JobState::Leased,
        valid_transition(from, JobState::Pending) ==> from == JobState::Leased,
        valid_transition(from, JobState::Completed) ==> from == JobState::Leased,
        valid_transition(from, JobState::Failed) ==> from == JobState::Leased,
        valid_transition(from, to) ==> from != to,
        valid_transition(JobState::Pending, JobState::Leased),
        valid_transition(JobState::Leased, JobState::Completed),
        valid_transition(JobState::Leased, JobState::Failed),
        valid_transition(JobState::Leased, JobState::Pending),
{
}

} // verus!
