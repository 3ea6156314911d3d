//! Request defaults and response shapes of the gRPC and admin HTTP APIs.
use vstd::prelude::*;
use crate::job::JobState;
use crate::store::{QueueStats, StorageError};

verus! {

/// The wire number of a job state.
pub fn job_state_to_proto(s: JobState) -> (r: i32)
    ensures
        r == match s {
            JobState::Pending => 1i32,
            JobState::Leased => 2i32,
            JobState::Completed => 3i32,
            JobState::Failed => 4i32,
        },
{
    match s {
        JobState::Pending => 1,
        JobState::Leased => 2,
        JobState::Completed => 3,
        JobState::Failed => 4,
    }
}

/// The seconds and nanoseconds of a wire timestamp for the instant `ms`
/// milliseconds after the epoch: whole seconds rounded down, and the
/// milliseconds past them in nanoseconds.
pub fn timestamp_parts(ms: i64) -> (r: (i64, i32))
    ensures
        r.0 == ms as int / 1000,
        r.1 == (ms as int % 1000) * 1_000_000,
{
    // A multiple of 1000 large enough to make every i64 positive.
    let off: i128 = 1_152_921_504_606_846_976_000;
    let shifted: i128 = ms as i128 + off;
    let q: i128 = shifted / 1000;
    let m: i128 = shifted % 1000;
    let secs: i128 = q - 1_152_921_504_606_846_976;
    proof {
        let x = ms as int;
        let k = 1_152_921_504_606_846_976int;
        assert(off == 1000 * k);
        assert(shifted == 1000 * q + m && 0 <= m < 1000);
        assert(x == 1000 * (q - k) + m);
        vstd::arithmetic::div_mod::lemma_fundamental_div_mod_converse(x, 1000, q - k, m as int);
    }
    (secs as i64, (m * 1_000_000) as i32)
}

/// Which gRPC status a storage error is answered with.
#[derive(Clone, Copy, Debug, PartialEq, Eq, Structural)]
pub enum StatusCode {
    NotFound,
    FailedPrecondition,
    Unavailable,
    InvalidArgument,
}

/// The gRPC status and message of a storage error.
pub fn map_storage_err(e: StorageError) -> (r: (StatusCode, String))
    ensures
        e matches StorageError::NotFound ==> r.0 == StatusCode::NotFound && r.1@ == "not found"@,
        e matches StorageError::PreconditionFailed(m) ==> r.0 == StatusCode::FailedPrecondition
            && r.1@ == m@,
        e matches StorageError::Redis(m) ==> r.0 == StatusCode::Unavailable && r.1@ == m@,
        e matches StorageError::Other(m) ==> r.0 == StatusCode::InvalidArgument && r.1@ == m@,
{
    match e {
        StorageError::NotFound => (StatusCode::NotFound, String::from_str("not found")),
        StorageError::PreconditionFailed(m) => (StatusCode::FailedPrecondition, m),
        StorageError::Redis(m) => (StatusCode::Unavailable, m),
        StorageError::Other(m) => (StatusCode::InvalidArgument, m),
    }
}

/// How long a gRPC dequeue waits: 30 seconds unless a positive wait is asked.
pub fn dequeue_wait_ms(wait_timeout_ms: i32) -> (r: i32)
    ensures
        r == if wait_timeout_ms <= 0 {
            30_000
        } else {
            wait_timeout_ms
        },
{
    if wait_timeout_ms <= 0 {
        30_000
    } else {
        wait_timeout_ms
    }
}

/// The backoff hinted to a worker after `empty_streak` empty polls: a second
/// per poll (at least one), at most 30 seconds.
pub open spec fn backoff_for(empty_streak: u32) -> u32 {
    if empty_streak < 1 {
        1000
    } else if 1000 * empty_streak > 30_000 {
        30_000
    } else {
        (1000 * empty_streak) as u32
    }
}

/// The backoff hint is a second per empty poll, at least one second and at
/// most thirty, and never shrinks as the empty streak grows.
pub proof fn lemma_backoff_bounds(a: u32, b: u32)
    ensures
        1000 <= backoff_for(a) <= 30_000,
        1 <= a <= 30 ==> backoff_for(a) == 1000 * a,
        a <= b ==> backoff_for(a) <= backoff_for(b),
        a >= 30 ==> backoff_for(a) == 30_000,
{
    assert(a <= b ==> 1000 * a <= 1000 * b) by (nonlinear_arith);
}

pub fn backoff_hint_ms(empty_streak: u32) -> (r: u32)
    requires
        empty_streak <= u32::MAX / 1000,
    ensures
        r == backoff_for(empty_streak),
{
    let streak: u32 = if empty_streak < 1 {
        1
    } else {
        empty_streak
    };
    let b: u32 = 1000 * streak;
    if b < 30_000 {
        b
    } else {
        30_000
    }
}

/// What a gRPC dequeue does after one poll of the store.
pub enum PollAction {
    /// Answer with the job the poll found.
    Deliver,
    /// Answer that no job came, hinting the worker to back off this long.
    GiveUp { backoff_hint_ms: u32 },
    /// Poll again after a pause of this many milliseconds.
    PollAgain { pause_ms: u64 },
}

/// The polls of one gRPC dequeue: how many in a row found nothing.
pub struct DequeuePoll {
    pub empty_streak: u32,
}

impl DequeuePoll {
    pub fn new() -> (r: Self)
        ensures
            r.empty_streak == 0,
    {
        DequeuePoll { empty_streak: 0 }
    }

    /// After a poll: a job found is delivered; with none found, give up once
    /// the deadline has passed, hinting a backoff by the empty streak so far,
    /// else count one more empty poll and poll again in half a second.
    pub fn after_poll(&mut self, found: bool, deadline_passed: bool) -> (r: PollAction)
        requires
            !found && deadline_passed ==> old(self).empty_streak <= u32::MAX / 1000,
            !found && !deadline_passed ==> old(self).empty_streak < u32::MAX,
        ensures
            found ==> r is Deliver && final(self).empty_streak == old(self).empty_streak,
            !found && deadline_passed ==> (r matches PollAction::GiveUp { backoff_hint_ms }
                && backoff_hint_ms == backoff_for(old(self).empty_streak))
                && final(self).empty_streak == old(self).empty_streak,
            !found && !deadline_passed ==> (r matches PollAction::PollAgain { pause_ms } && pause_ms
                == 500) && final(self).empty_streak == old(self).empty_streak + 1,
    {
        if found {
            return PollAction::Deliver;
        }
        if deadline_passed {
            return PollAction::GiveUp { backoff_hint_ms: backoff_hint_ms(self.empty_streak) };
        }
        self.empty_streak = self.empty_streak + 1;
        PollAction::PollAgain { pause_ms: 500 }
    }
}

/// The failure reason recorded for a nack: `nack` when none is given.
pub fn nack_reason(reason: &str) -> (r: &str)
    ensures
        r@ == if reason@.len() == 0 {
            "nack"@
        } else {
            reason@
        },
{
    if reason.is_empty() {
        "nack"
    } else {
        reason
    }
}

/// The lease extension asked for: 30 seconds unless a positive one is given.
pub fn extension_ms(requested: i32) -> (r: u64)
    ensures
        r == if requested <= 0 {
            30_000
        } else {
            requested as int
        },
{
    if requested <= 0 {
        30_000
    } else {
        requested as u64
    }
}

/// A queue with its job counts, as the admin API lists it.
#[derive(Clone, Debug)]
pub struct QueueInfo {
    pub name: String,
    pub pending: u64,
    pub leased: u64,
    pub completed: u64,
    pub failed: u64,
}

pub fn queue_info(name: &str, stats: QueueStats) -> (r: QueueInfo)
    ensures
        r.name@ == name@,
        r.pending == stats.pending,
        r.leased == stats.leased,
        r.completed == stats.completed,
        r.failed == stats.failed,
{
    QueueInfo {
        name: String::from_str(name),
        pending: stats.pending,
        leased: stats.leased,
        completed: stats.completed,
        failed: stats.failed,
    }
}

/// How many jobs the admin API lists: 50 unless asked, never more than 200.
pub fn jobs_limit(limit: Option<usize>) -> (r: usize)
    ensures
        r == match limit {
            Some(l) => if l < 200 {
                l
            } else {
                200
            },
            None => 50,
        },
{
    let l = match limit {
        Some(l) => l,
        None => 50,
    };
    if l < 200 {
        l
    } else {
        200
    }
}

} // verus!
