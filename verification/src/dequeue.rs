//! The decisions of one dequeue call: take pending jobs without waiting while
//! more are wanted; when none is pending, wait on the queues' pending lists
//! until the deadline and lease what a wait pops. The caller carries out each
//! action against Redis and reports back what came of it.
use vstd::prelude::*;
use crate::job::{Job, JobView};
use crate::keys::{pending_key_queue, queue_from_pending_key};
use crate::store::{
    batch_limit, block_seconds, dequeue_batch_limit, dequeue_block_seconds, jobs_view, str_seq_view,
};

verus! {

/// What a dequeue does next.
pub enum DequeueAction {
    /// Lease the oldest pending job of the first queue that has one, without
    /// waiting.
    TryClaim,
    /// Wait up to `seconds` for an id to arrive on any of the pending lists.
    Block { seconds: u64 },
    /// Lease job `job_id` of `queue`, which a wait popped.
    ClaimById { queue: String, job_id: String },
    /// Stop and answer the jobs leased so far.
    Finish,
}

/// A dequeue in progress as plain values.
pub struct DequeueRunView {
    pub jobs: Seq<JobView>,
    pub max_jobs: nat,
    pub wait_timeout_ms: u64,
}

/// A dequeue in progress: the jobs leased so far, at most `max_jobs` of them.
pub struct DequeueRun {
    jobs: Vec<Job>,
    max_jobs: usize,
    wait_timeout_ms: u64,
}

impl View for DequeueRun {
    type V = DequeueRunView;

    closed spec fn view(&self) -> DequeueRunView {
        DequeueRunView {
            jobs: jobs_view(self.jobs@),
            max_jobs: self.max_jobs as nat,
            wait_timeout_ms: self.wait_timeout_ms,
        }
    }
}

/// Claim again while jobs are wanted, else stop.
pub open spec fn claim_or_finish(v: DequeueRunView, a: DequeueAction) -> bool {
    if v.jobs.len() < v.max_jobs {
        a is TryClaim
    } else {
        a is Finish
    }
}

impl DequeueRun {
    #[verifier::type_invariant]
    spec fn well_formed(self) -> bool {
        &&& 1 <= self.max_jobs <= 64
        &&& self.jobs@.len() <= self.max_jobs
    }

    /// A dequeue of up to `max_jobs` jobs (between 1 and 64) that waits up to
    /// `wait_timeout_ms` when nothing is pending.
    pub fn new(max_jobs: u32, wait_timeout_ms: u64) -> (r: Self)
        ensures
            r@.jobs.len() == 0,
            r@.max_jobs == batch_limit(max_jobs),
            1 <= max_jobs <= 64 ==> r@.max_jobs == max_jobs,
            max_jobs >= 1 ==> r@.max_jobs <= max_jobs,
            r@.wait_timeout_ms == wait_timeout_ms,
    {
        let max_jobs = dequeue_batch_limit(max_jobs);
        let r = DequeueRun { jobs: Vec::new(), max_jobs, wait_timeout_ms };
        assert(r@.jobs =~= Seq::<JobView>::empty());
        r
    }

    /// Whether more jobs are wanted.
    pub fn wants_more(&self) -> (r: bool)
        ensures
            r == (self@.jobs.len() < self@.max_jobs),
    {
        self.jobs.len() < self.max_jobs
    }

    /// What to do next: claim while jobs are wanted, else stop.
    pub fn next_action(&self) -> (r: DequeueAction)
        ensures
            claim_or_finish(self@, r),
    {
        if self.wants_more() {
            DequeueAction::TryClaim
        } else {
            DequeueAction::Finish
        }
    }

    fn keep(&mut self, claimed: Option<Job>)
        requires
            old(self)@.jobs.len() < old(self)@.max_jobs,
        ensures
            final(self)@.jobs == (match claimed {
                Some(j) => old(self)@.jobs.push(j@),
                None => old(self)@.jobs,
            }),
            final(self)@.max_jobs == old(self)@.max_jobs,
            final(self)@.wait_timeout_ms == old(self)@.wait_timeout_ms,
    {
        proof {
            use_type_invariant(&*self);
        }
        if let Some(job) = claimed {
            let ghost before = jobs_view(self.jobs@);
            let ghost jv = job@;
            let mut jobs: Vec<Job> = Vec::new();
            std::mem::swap(&mut jobs, &mut self.jobs);
            jobs.push(job);
            self.jobs = jobs;
            assert(jobs_view(self.jobs@) =~= before.push(jv));
        }
    }

    /// After a claim without waiting, with the time left until the deadline:
    /// a leased job is kept and the next is claimed while more are wanted;
    /// when nothing was pending, wait for the seconds `block_seconds` gives,
    /// or stop when it gives none (no wait asked, or the deadline passed).
    pub fn after_try_claim(
        &mut self,
        claimed: Option<Job>,
        remaining_secs: u64,
        remaining_nanos: u32,
    ) -> (r: DequeueAction)
        requires
            old(self)@.jobs.len() < old(self)@.max_jobs,
        ensures
            final(self)@.max_jobs == old(self)@.max_jobs,
            final(self)@.wait_timeout_ms == old(self)@.wait_timeout_ms,
            claimed matches Some(j) ==> final(self)@.jobs == old(self)@.jobs.push(j@)
                && claim_or_finish(final(self)@, r),
            claimed is None ==> final(self)@.jobs == old(self)@.jobs && match block_seconds(
                old(self)@.wait_timeout_ms,
                remaining_secs,
                remaining_nanos,
            ) {
                Some(secs) => r matches DequeueAction::Block { seconds } && seconds == secs,
                None => r is Finish,
            },
    {
        if claimed.is_some() {
            self.keep(claimed);
            return self.next_action();
        }
        match dequeue_block_seconds(self.wait_timeout_ms, remaining_secs, remaining_nanos) {
            Some(seconds) => DequeueAction::Block { seconds },
            None => DequeueAction::Finish,
        }
    }

    /// After a wait: nothing popped ends the dequeue; an id popped from a
    /// pending list is leased by id; a key that names no queue is passed
    /// over and the next job claimed.
    pub fn after_block(&self, popped: Option<(String, String)>) -> (r: DequeueAction)
        requires
            self@.jobs.len() < self@.max_jobs,
        ensures
            popped is None ==> r is Finish,
            popped matches Some(p) ==> match pending_key_queue(p.0@) {
                Some(q) => r matches DequeueAction::ClaimById { queue, job_id } && queue@ == q
                    && job_id@ == p.1@,
                None => r is TryClaim,
            },
    {
        match popped {
            None => DequeueAction::Finish,
            Some((key, job_id)) => match queue_from_pending_key(key.as_str()) {
                Some(queue) => DequeueAction::ClaimById { queue, job_id },
                None => DequeueAction::TryClaim,
            },
        }
    }

    /// After leasing a popped id: the job, if it was still pending, is kept;
    /// the next is claimed while more are wanted.
    pub fn after_claim_by_id(&mut self, claimed: Option<Job>) -> (r: DequeueAction)
        requires
            old(self)@.jobs.len() < old(self)@.max_jobs,
        ensures
            final(self)@.max_jobs == old(self)@.max_jobs,
            final(self)@.wait_timeout_ms == old(self)@.wait_timeout_ms,
            final(self)@.jobs == (match claimed {
                Some(j) => old(self)@.jobs.push(j@),
                None => old(self)@.jobs,
            }),
            claim_or_finish(final(self)@, r),
    {
        self.keep(claimed);
        self.next_action()
    }

    /// The jobs leased, in the order they were leased: never more than asked
    /// for, and never more than 64.
    pub fn into_jobs(self) -> (r: Vec<Job>)
        ensures
            jobs_view(r@) == self@.jobs,
            r@.len() <= self@.max_jobs,
            self@.max_jobs <= 64,
    {
        proof {
            use_type_invariant(&self);
        }
        self.jobs
    }
}


/// A claim without waiting, as plain values: the queues in the order given,
/// and how many have been tried.
pub struct ClaimScanView {
    pub queues: Seq<Seq<char>>,
    pub tried: nat,
}

/// A claim without waiting: the queues are tried one by one, in the order
/// given, and the first that answers an id wins.
pub struct ClaimScan {
    queues: Vec<String>,
    tried: usize,
}

impl View for ClaimScan {
    type V = ClaimScanView;

    closed spec fn view(&self) -> ClaimScanView {
        ClaimScanView { queues: str_seq_view(self.queues@), tried: self.tried as nat }
    }
}

impl ClaimScan {
    #[verifier::type_invariant]
    spec fn well_formed(self) -> bool {
        self.tried <= self.queues@.len()
    }

    pub fn new(queues: &Vec<String>) -> (r: Self)
        ensures
            r@.queues == str_seq_view(queues@),
            r@.tried == 0,
    {
        let mut qs: Vec<String> = Vec::new();
        let mut i: usize = 0;
        while i < queues.len()
            invariant
                i <= queues@.len(),
                str_seq_view(qs@) == str_seq_view(queues@).take(i as int),
            decreases queues@.len() - i,
        {
            let q = queues[i].clone();
            let ghost before = str_seq_view(qs@);
            qs.push(q);
            assert(str_seq_view(qs@) =~= before.push(queues@[i as int]@));
            assert(str_seq_view(queues@).take(i + 1) =~= str_seq_view(queues@).take(i as int).push(
                queues@[i as int]@,
            ));
            i = i + 1;
        }
        assert(str_seq_view(queues@).take(queues@.len() as int) =~= str_seq_view(queues@));
        ClaimScan { queues: qs, tried: 0 }
    }

    /// The queue to try next: the first not yet tried, if any is left.
    pub fn next_queue(&self) -> (r: Option<String>)
        ensures
            r is Some <==> self@.tried < self@.queues.len(),
            r matches Some(q) ==> q@ == self@.queues[self@.tried as int],
    {
        proof {
            use_type_invariant(self);
        }
        assert(str_seq_view(self.queues@).len() == self.queues@.len());
        if self.tried < self.queues.len() {
            let q = self.queues[self.tried].clone();
            assert(str_seq_view(self.queues@)[self.tried as int] == self.queues@[self.tried as int]@);
            Some(q)
        } else {
            None
        }
    }

    /// After the queue just tried answered: an id wins and ends the scan;
    /// no id moves on to the next queue.
    pub fn after_claim(&mut self, claimed: Option<String>) -> (r: Option<String>)
        requires
            old(self)@.tried < old(self)@.queues.len(),
        ensures
            final(self)@.queues == old(self)@.queues,
            claimed matches Some(id) ==> (r matches Some(x) && x@ == id@) && final(self)@.tried
                == old(self)@.tried,
            claimed is None ==> r is None && final(self)@.tried == old(self)@.tried + 1,
    {
        let n = self.queues.len();
        assert(str_seq_view(self.queues@).len() == n);
        match claimed {
            Some(id) => Some(id),
            None => {
                self.tried = self.tried + 1;
                None
            },
        }
    }
}

} // verus!
