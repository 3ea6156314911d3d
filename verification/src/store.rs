//! What the job store writes to Redis and how it reads back what it finds.
//! Every operation is planned here as plain commands; the caller sends them.
use vstd::prelude::*;
use crate::clock::{instant_after, chrono_millis_valid};
use crate::codec::{
    decode_job_fields, f_failure_reason, f_lease_expires_at, f_lease_renewals, f_state,
    f_updated_at, hash_to_job, job_fields, job_to_hash, pairs_view, text,
};
use crate::decimal::{i64_to_string, int_decimal};
use crate::job::{opt_chars, state_name, Job, JobState, JobView};
use crate::keys::{
    job_events_key, job_key, job_prefix_key, queue_leased_key, queue_pending_key,
    queue_registry_key, recent_jobs_key, KeyBuilder,
};
use crate::text::{push_char, str_equals};

verus! {

#[derive(Debug)]
pub enum StorageError {
    NotFound,
    PreconditionFailed(String),
    Redis(String),
    Other(String),
}

/// How a storage error reads.
pub open spec fn error_message(e: StorageError) -> Seq<char> {
    match e {
        StorageError::NotFound => "not found"@,
        StorageError::PreconditionFailed(m) => "precondition failed: "@ + m@,
        StorageError::Redis(m) => "redis error: "@ + m@,
        StorageError::Other(m) => m@,
    }
}

impl StorageError {
    /// The error's text: `not found`, `precondition failed: {m}`,
    /// `redis error: {m}`, or the message itself.
    pub fn message(&self) -> (r: String)
        ensures
            r@ == error_message(*self),
    {
        match self {
            StorageError::NotFound => String::from_str("not found"),
            StorageError::PreconditionFailed(m) => {
                let mut t = String::from_str("precondition failed: ");
                t.append(m.as_str());
                t
            },
            StorageError::Redis(m) => {
                let mut t = String::from_str("redis error: ");
                t.append(m.as_str());
                t
            },
            StorageError::Other(m) => m.clone(),
        }
    }
}

/// Number of jobs of a queue in each state.
#[derive(Debug, Clone, Copy, PartialEq, Eq, Structural)]
pub struct QueueStats {
    pub pending: u64,
    pub leased: u64,
    pub completed: u64,
    pub failed: u64,
}

/// One Redis write.
pub enum Command {
    /// `HSET key f1 v1 f2 v2 ...`
    HSetFields { key: String, fields: Vec<(String, String)> },
    /// `HSET key field value`
    HSet { key: String, field: String, value: String },
    /// `LPUSH key value`
    LPush { key: String, value: String },
    /// `SADD key member`
    SAdd { key: String, member: String },
    /// `ZADD key score member`
    ZAdd { key: String, member: String, score: i64 },
    /// `ZREM key member`
    ZRem { key: String, member: String },
    /// `ZREMRANGEBYRANK key start stop`
    ZRemRangeByRank { key: String, start: i64, stop: i64 },
}

/// A command as plain values.
pub enum CommandView {
    HSetFields { key: Seq<char>, fields: Seq<(Seq<char>, Seq<char>)> },
    HSet { key: Seq<char>, field: Seq<char>, value: Seq<char> },
    LPush { key: Seq<char>, value: Seq<char> },
    SAdd { key: Seq<char>, member: Seq<char> },
    ZAdd { key: Seq<char>, member: Seq<char>, score: i64 },
    ZRem { key: Seq<char>, member: Seq<char> },
    ZRemRangeByRank { key: Seq<char>, start: i64, stop: i64 },
}

impl View for Command {
    type V = CommandView;

    open spec fn view(&self) -> CommandView {
        match self {
            Command::HSetFields { key, fields } => CommandView::HSetFields {
                key: key@,
                fields: pairs_view(fields@),
            },
            Command::HSet { key, field, value } => CommandView::HSet {
                key: key@,
                field: field@,
                value: value@,
            },
            Command::LPush { key, value } => CommandView::LPush { key: key@, value: value@ },
            Command::SAdd { key, member } => CommandView::SAdd { key: key@, member: member@ },
            Command::ZAdd { key, member, score } => CommandView::ZAdd {
                key: key@,
                member: member@,
                score: *score,
            },
            Command::ZRem { key, member } => CommandView::ZRem { key: key@, member: member@ },
            Command::ZRemRangeByRank { key, start, stop } => CommandView::ZRemRangeByRank {
                key: key@,
                start: *start,
                stop: *stop,
            },
        }
    }
}

pub open spec fn commands_view(v: Seq<Command>) -> Seq<CommandView> {
    v.map_values(|c: Command| c@)
}

/// Writes of one operation: `atomic` goes out as one transaction, `after`
/// command by command after it.
pub struct Writes {
    pub atomic: Vec<Command>,
    pub after: Vec<Command>,
}

/// The entries of a job's event log.
#[derive(Clone, Copy, Debug, PartialEq, Eq, Structural)]
pub enum JobEvent {
    Created,
    Leased,
    Completed,
    Failed,
    LeaseExpired,
}

pub open spec fn event_name(e: JobEvent) -> Seq<char> {
    match e {
        JobEvent::Created => seq!['c', 'r', 'e', 'a', 't', 'e', 'd'],
        JobEvent::Leased => seq!['l', 'e', 'a', 's', 'e', 'd'],
        JobEvent::Completed => seq!['c', 'o', 'm', 'p', 'l', 'e', 't', 'e', 'd'],
        JobEvent::Failed => seq!['f', 'a', 'i', 'l', 'e', 'd'],
        JobEvent::LeaseExpired => seq![
            'l',
            'e',
            'a',
            's',
            'e',
            '_',
            'e',
            'x',
            'p',
            'i',
            'r',
            'e',
            'd',
        ],
    }
}

impl JobEvent {
    pub fn as_str(&self) -> (r: &'static str)
        ensures
            r@ == event_name(*self),
    {
        match self {
            JobEvent::Created => {
                proof {
                    reveal_strlit("created");
                }
                "created"
            },
            JobEvent::Leased => {
                proof {
                    reveal_strlit("leased");
                }
                "leased"
            },
            JobEvent::Completed => {
                proof {
                    reveal_strlit("completed");
                }
                "completed"
            },
            JobEvent::Failed => {
                proof {
                    reveal_strlit("failed");
                }
                "failed"
            },
            JobEvent::LeaseExpired => {
                proof {
                    reveal_strlit("lease_expired");
                }
                "lease_expired"
            },
        }
    }
}

/// `{now}:{event}`, one entry of a job's event log.
pub open spec fn event_entry(now: i64, e: JobEvent) -> Seq<char> {
    int_decimal(now as int) + seq![':'] + event_name(e)
}

/// The three scripts the store runs atomically inside Redis.
#[derive(Clone, Copy, Debug, PartialEq, Eq, Structural)]
pub enum Script {
    /// Pops the oldest pending id of a queue and leases that job.
    ClaimNext,
    /// Leases a given job if it is still pending.
    ClaimById,
    /// Puts a leased job whose lease has run out back on its pending list.
    RequeueExpired,
}

/// A script with the keys and arguments it runs on.
pub struct ScriptCall {
    pub script: Script,
    pub keys: Vec<String>,
    pub args: Vec<String>,
}

/// Pops the oldest pending id (`KEYS[1]`) and leases its job (`ARGV[4] .. id`) to
/// worker `ARGV[1]` until `ARGV[2]`, updated at `ARGV[3]`; adds it to the leased set
/// `KEYS[2]`. Answers the id, or nil when the list is empty.
pub const CLAIM_NEXT_LUA: &'static str = "
            local job_id = redis.call('RPOP', KEYS[1])
            if not job_id then return nil end
            local job_key = ARGV[4] .. job_id
            redis.call('HSET', job_key, 'state', 'leased', 'worker_id', ARGV[1],
                'lease_expires_at', ARGV[2], 'updated_at', ARGV[3])
            redis.call('ZADD', KEYS[2], ARGV[2], job_id)
            return job_id
        ";

/// Leases job `ARGV[1]` (key `ARGV[5] .. id`) to worker `ARGV[2]` until `ARGV[3]`,
/// updated at `ARGV[4]`, if its state is `pending`; adds it to the leased set
/// `KEYS[1]`. Answers the id, or nil.
pub const CLAIM_BY_ID_LUA: &'static str = "
            local job_id = ARGV[1]
            local job_key = ARGV[5] .. job_id
            local state = redis.call('HGET', job_key, 'state')
            if state ~= 'pending' then return nil end
            redis.call('HSET', job_key, 'state', 'leased', 'worker_id', ARGV[2],
                'lease_expires_at', ARGV[3], 'updated_at', ARGV[4])
            redis.call('ZADD', KEYS[1], ARGV[3], job_id)
            return job_id
        ";

/// Puts leased job `ARGV[1]` (key `ARGV[2]`) whose expiry is at or before
/// `ARGV[3]` back to pending, clearing its worker and expiry, updated at
/// `ARGV[4]`; moves its id from the leased set `KEYS[1]` to the tail of the
/// pending list `KEYS[2]`, the end claims take from, so it is the next job
/// claimed there. Answers 1 when it did, else 0.
pub const REQUEUE_EXPIRED_LUA: &'static str = "
            local job_id = ARGV[1]
            local job_key = ARGV[2]
            local now_ms = tonumber(ARGV[3])
            local state = redis.call('HGET', job_key, 'state')
            if state ~= 'leased' then return 0 end
            local exp = redis.call('HGET', job_key, 'lease_expires_at')
            if (not exp) or exp == '' or tonumber(exp) > now_ms then return 0 end
            redis.call('HSET', job_key, 'state', 'pending', 'worker_id', '',
                'lease_expires_at', '', 'updated_at', ARGV[4])
            redis.call('ZREM', KEYS[1], job_id)
            redis.call('RPUSH', KEYS[2], job_id)
            return 1
        ";

/// The Lua text of a script.
pub fn script_source(s: Script) -> (r: &'static str)
    ensures
        r@ == match s {
            Script::ClaimNext => CLAIM_NEXT_LUA@,
            Script::ClaimById => CLAIM_BY_ID_LUA@,
            Script::RequeueExpired => REQUEUE_EXPIRED_LUA@,
        },
{
    match s {
        Script::ClaimNext => CLAIM_NEXT_LUA,
        Script::ClaimById => CLAIM_BY_ID_LUA,
        Script::RequeueExpired => REQUEUE_EXPIRED_LUA,
    }
}

pub open spec fn str_seq_view(v: Seq<String>) -> Seq<Seq<char>> {
    v.map_values(|s: String| s@)
}

/// The writes that store a new job, sent as one transaction: its fields, its
/// id on the queue's pending list, its queue in the registry and its id in
/// the recent index.
pub open spec fn enqueue_atomic(ns: Seq<char>, j: JobView) -> Seq<CommandView> {
    seq![
        CommandView::HSetFields { key: job_key(ns, j.id), fields: job_fields(j) },
        CommandView::LPush { key: queue_pending_key(ns, j.queue), value: j.id },
        CommandView::SAdd { key: queue_registry_key(ns), member: j.queue },
        CommandView::ZAdd { key: recent_jobs_key(ns), member: j.id, score: j.created_at },
    ]
}

/// What follows the storing of a new job: the recent index trimmed to its
/// limit, and `created` logged.
pub open spec fn enqueue_after(ns: Seq<char>, j: JobView, limit: usize, now: i64) -> Seq<
    CommandView,
> {
    seq![
        CommandView::ZRemRangeByRank {
            key: recent_jobs_key(ns),
            start: 0,
            stop: -(limit + 1) as i64,
        },
        CommandView::LPush { key: job_events_key(ns, j.id), value: event_entry(now, JobEvent::Created) },
    ]
}

/// An event logged for job `id`.
pub open spec fn event_after(ns: Seq<char>, id: Seq<char>, now: i64, e: JobEvent) -> Seq<
    CommandView,
> {
    seq![CommandView::LPush { key: job_events_key(ns, id), value: event_entry(now, e) }]
}

/// The writes that complete job `id` of `queue`, sent as one transaction.
pub open spec fn ack_atomic(ns: Seq<char>, id: Seq<char>, queue: Seq<char>, now: i64) -> Seq<
    CommandView,
> {
    seq![
        CommandView::HSet {
            key: job_key(ns, id),
            field: f_state(),
            value: state_name(JobState::Completed),
        },
        CommandView::HSet { key: job_key(ns, id), field: f_updated_at(), value: int_decimal(now as int) },
        CommandView::ZRem { key: queue_leased_key(ns, queue), member: id },
    ]
}

/// The writes that fail job `id` of `queue` for `reason`, sent as one
/// transaction.
pub open spec fn nack_atomic(
    ns: Seq<char>,
    id: Seq<char>,
    queue: Seq<char>,
    reason: Seq<char>,
    now: i64,
) -> Seq<CommandView> {
    seq![
        CommandView::HSet { key: job_key(ns, id), field: f_state(), value: state_name(JobState::Failed) },
        CommandView::HSet { key: job_key(ns, id), field: f_failure_reason(), value: reason },
        CommandView::HSet { key: job_key(ns, id), field: f_updated_at(), value: int_decimal(now as int) },
        CommandView::ZRem { key: queue_leased_key(ns, queue), member: id },
    ]
}

/// The writes that move the lease of job `id` of `queue` to `exp`, as its
/// `renewals`-th renewal, sent as one transaction.
pub open spec fn extend_atomic(
    ns: Seq<char>,
    id: Seq<char>,
    queue: Seq<char>,
    exp: i64,
    renewals: int,
) -> Seq<CommandView> {
    seq![
        CommandView::HSet {
            key: job_key(ns, id),
            field: f_lease_expires_at(),
            value: int_decimal(exp as int),
        },
        CommandView::HSet { key: job_key(ns, id), field: f_lease_renewals(), value: int_decimal(renewals) },
        CommandView::ZAdd { key: queue_leased_key(ns, queue), member: id, score: exp },
    ]
}

/// Keys of a `ClaimNext` run on `queue`: its pending list and leased set.
pub open spec fn claim_next_keys(ns: Seq<char>, queue: Seq<char>) -> Seq<Seq<char>> {
    seq![queue_pending_key(ns, queue), queue_leased_key(ns, queue)]
}

/// Arguments of a `ClaimNext` run for `worker` with lease expiry `exp` at
/// update instant `updated`.
pub open spec fn claim_next_args(ns: Seq<char>, worker: Seq<char>, exp: i64, updated: i64) -> Seq<
    Seq<char>,
> {
    seq![worker, int_decimal(exp as int), int_decimal(updated as int), job_prefix_key(ns)]
}

/// Keys of a `ClaimById` run on `queue`: its leased set.
pub open spec fn claim_by_id_keys(ns: Seq<char>, queue: Seq<char>) -> Seq<Seq<char>> {
    seq![queue_leased_key(ns, queue)]
}

/// Arguments of a `ClaimById` run for job `id`.
pub open spec fn claim_by_id_args(
    ns: Seq<char>,
    id: Seq<char>,
    worker: Seq<char>,
    exp: i64,
    updated: i64,
) -> Seq<Seq<char>> {
    seq![id, worker, int_decimal(exp as int), int_decimal(updated as int), job_prefix_key(ns)]
}

/// Keys of a `RequeueExpired` run on `queue`: its leased set and pending list.
pub open spec fn requeue_keys(ns: Seq<char>, queue: Seq<char>) -> Seq<Seq<char>> {
    seq![queue_leased_key(ns, queue), queue_pending_key(ns, queue)]
}

/// Arguments of a `RequeueExpired` run for job `id` at `now`.
pub open spec fn requeue_args(ns: Seq<char>, id: Seq<char>, now: i64) -> Seq<Seq<char>> {
    seq![id, job_key(ns, id), int_decimal(now as int), int_decimal(now as int)]
}

/// Where and how the job store keeps its data in one namespace.
pub struct RedisLayout {
    pub keys: KeyBuilder,
    pub recent_history_limit: usize,
}

pub open spec fn msg_not_leased() -> Seq<char> {
    seq!['j', 'o', 'b', ' ', 'n', 'o', 't', ' ', 'l', 'e', 'a', 's', 'e', 'd']
}

pub open spec fn msg_wrong_worker() -> Seq<char> {
    seq!['w', 'r', 'o', 'n', 'g', ' ', 'w', 'o', 'r', 'k', 'e', 'r']
}

pub open spec fn msg_max_renewals() -> Seq<char> {
    seq!['m', 'a', 'x', ' ', 'r', 'e', 'n', 'e', 'w', 'a', 'l', 's']
}

pub open spec fn msg_corrupt_job() -> Seq<char> {
    seq!['c', 'o', 'r', 'r', 'u', 'p', 't', ' ', 'j', 'o', 'b']
}

pub open spec fn msg_lease_out_of_range() -> Seq<char> {
    seq![
        'l',
        'e',
        'a',
        's',
        'e',
        ' ',
        'o',
        'u',
        't',
        ' ',
        'o',
        'f',
        ' ',
        'r',
        'a',
        'n',
        'g',
        'e',
    ]
}

pub open spec fn precondition_failed(e: StorageError, msg: Seq<char>) -> bool {
    e matches StorageError::PreconditionFailed(m) && m@ == msg
}

/// Whether the job is held by `worker`.
pub open spec fn held_by(j: JobView, worker: Seq<char>) -> bool {
    j.worker_id == Some(worker)
}

/// A job is held by a worker exactly when its worker id is that worker's id,
/// compared as whole strings: a job with no worker is held by none, and two
/// ids that differ anywhere name different holders.
pub proof fn lemma_held_by_is_whole_id(j: JobView, worker: Seq<char>)
    ensures
        held_by(j, worker) <==> j.worker_id == Some(worker),
        j.worker_id is None ==> !held_by(j, worker),
        forall|other: Seq<char>| held_by(j, worker) && #[trigger] held_by(j, other) ==> other == worker,
{
}

fn not_leased_error() -> (e: StorageError)
    ensures
        precondition_failed(e, msg_not_leased()),
{
    proof {
        reveal_strlit("job not leased");
        assert("job not leased"@ =~= msg_not_leased());
    }
    StorageError::PreconditionFailed(text("job not leased"))
}

fn wrong_worker_error() -> (e: StorageError)
    ensures
        precondition_failed(e, msg_wrong_worker()),
{
    proof {
        reveal_strlit("wrong worker");
        assert("wrong worker"@ =~= msg_wrong_worker());
    }
    StorageError::PreconditionFailed(text("wrong worker"))
}

fn max_renewals_error() -> (e: StorageError)
    ensures
        precondition_failed(e, msg_max_renewals()),
{
    proof {
        reveal_strlit("max renewals");
        assert("max renewals"@ =~= msg_max_renewals());
    }
    StorageError::PreconditionFailed(text("max renewals"))
}

fn lease_range_error() -> (e: StorageError)
    ensures
        e matches StorageError::Other(m) && m@ == msg_lease_out_of_range(),
{
    proof {
        reveal_strlit("lease out of range");
        assert("lease out of range"@ =~= msg_lease_out_of_range());
    }
    StorageError::Other(text("lease out of range"))
}

fn held_by_worker(job: &Job, worker_id: &str) -> (r: bool)
    ensures
        r == held_by(job@, worker_id@),
{
    match &job.worker_id {
        Some(w) => str_equals(w.as_str(), worker_id),
        None => false,
    }
}

impl RedisLayout {
    pub fn new(namespace: &str, recent_history_limit: usize) -> (r: Self)
        ensures
            r.keys@ == namespace@,
            r.recent_history_limit == recent_history_limit,
    {
        RedisLayout { keys: KeyBuilder::new(namespace), recent_history_limit }
    }

    /// `LPUSH fe:{ns}:job:{id}:events "{now}:{event}"`
    pub fn event_command(&self, job_id: &str, event: JobEvent, now: i64) -> (r: Command)
        ensures
            r@ == (CommandView::LPush {
                key: job_events_key(self.keys@, job_id@),
                value: event_entry(now, event),
            }),
    {
        let mut entry = i64_to_string(now);
        push_char(&mut entry, ':');
        entry.append(event.as_str());
        assert(entry@ =~= event_entry(now, event));
        Command::LPush { key: self.keys.job_events(job_id), value: entry }
    }

    /// Keeps the newest `recent_history_limit` entries of the recent-jobs
    /// index: `ZREMRANGEBYRANK recent 0 -(limit + 1)`.
    pub fn trim_recent_command(&self) -> (r: Command)
        requires
            self.recent_history_limit < i64::MAX,
        ensures
            r@ == (CommandView::ZRemRangeByRank {
                key: recent_jobs_key(self.keys@),
                start: 0,
                stop: -(self.recent_history_limit + 1) as i64,
            }),
    {
        let stop: i64 = 0 - (self.recent_history_limit as i64 + 1);
        Command::ZRemRangeByRank { key: self.keys.recent_jobs(), start: 0, stop }
    }

    /// Stores a new job: its fields, its id on the queue's pending list, its
    /// queue in the registry and its id in the recent index, all at once;
    /// after trims the index and logs `created`.
    pub fn enqueue_writes(&self, job: &Job, now: i64) -> (r: Writes)
        requires
            (job.payload@.len() + 2) / 3 * 4 <= usize::MAX,
            self.recent_history_limit < i64::MAX,
        ensures
            commands_view(r.atomic@) == enqueue_atomic(self.keys@, job@),
            commands_view(r.after@) == enqueue_after(
                self.keys@,
                job@,
                self.recent_history_limit,
                now,
            ),
    {
        let mut atomic: Vec<Command> = Vec::new();
        atomic.push(
            Command::HSetFields { key: self.keys.job(job.id.as_str()), fields: job_to_hash(job) },
        );
        atomic.push(
            Command::LPush {
                key: self.keys.queue_pending(job.queue.as_str()),
                value: job.id.clone(),
            },
        );
        atomic.push(Command::SAdd { key: self.keys.queue_registry(), member: job.queue.clone() });
        atomic.push(
            Command::ZAdd {
                key: self.keys.recent_jobs(),
                member: job.id.clone(),
                score: job.created_at,
            },
        );
        let mut after: Vec<Command> = Vec::new();
        after.push(self.trim_recent_command());
        after.push(self.event_command(job.id.as_str(), JobEvent::Created, now));
        assert(commands_view(atomic@) =~= seq![
            CommandView::HSetFields { key: job_key(self.keys@, job.id@), fields: job_fields(job@) },
            CommandView::LPush { key: queue_pending_key(self.keys@, job.queue@), value: job.id@ },
            CommandView::SAdd { key: queue_registry_key(self.keys@), member: job.queue@ },
            CommandView::ZAdd {
                key: recent_jobs_key(self.keys@),
                member: job.id@,
                score: job.created_at,
            },
        ]);
        assert(commands_view(after@) =~= seq![
            CommandView::ZRemRangeByRank {
                key: recent_jobs_key(self.keys@),
                start: 0,
                stop: -(self.recent_history_limit + 1) as i64,
            },
            CommandView::LPush {
                key: job_events_key(self.keys@, job.id@),
                value: event_entry(now, JobEvent::Created),
            },
        ]);
        Writes { atomic, after }
    }

    /// Completes a job leased by `worker_id`: sets its state and update time
    /// and drops it from the leased set at once, then logs `completed`.
    /// Acking a completed job again changes nothing.
    pub fn ack_writes(&self, job_id: &str, job: &Job, worker_id: &str, now: i64) -> (r: Result<
        Option<Writes>,
        StorageError,
    >)
        ensures
            job.state == JobState::Completed ==> r matches Ok(None),
            job.state != JobState::Leased && job.state != JobState::Completed ==> (r matches Err(e)
                && precondition_failed(e, msg_not_leased())),
            job.state == JobState::Leased && !held_by(job@, worker_id@) ==> (r matches Err(e)
                && precondition_failed(e, msg_wrong_worker())),
            job.state == JobState::Leased && held_by(job@, worker_id@) ==> (r matches Ok(Some(w))
                && commands_view(w.atomic@) == ack_atomic(self.keys@, job_id@, job.queue@, now)
                && commands_view(w.after@) == event_after(self.keys@, job_id@, now, JobEvent::Completed)),
            job.state == JobState::Leased && job@.worker_id != Some(worker_id@) ==> (r matches Err(e)
                && precondition_failed(e, msg_wrong_worker())),
            r matches Ok(Some(_)) ==> job@.worker_id == Some(worker_id@),
    {
        proof {
            lemma_held_by_is_whole_id(job@, worker_id@);
        }
        if job.state != JobState::Leased {
            if job.state == JobState::Completed {
                return Ok(None);
            }
            return Err(not_leased_error());
        }
        if !held_by_worker(job, worker_id) {
            return Err(wrong_worker_error());
        }
        proof {
            crate::codec::lemma_field_name_literals();
            reveal_strlit("completed");
            assert("completed"@ =~= state_name(JobState::Completed));
        }
        let key = self.keys.job(job_id);
        let mut atomic: Vec<Command> = Vec::new();
        atomic.push(Command::HSet { key: key.clone(), field: text("state"), value: text("completed") });
        atomic.push(Command::HSet { key, field: text("updated_at"), value: i64_to_string(now) });
        atomic.push(
            Command::ZRem {
                key: self.keys.queue_leased(job.queue.as_str()),
                member: String::from_str(job_id),
            },
        );
        let mut after: Vec<Command> = Vec::new();
        after.push(self.event_command(job_id, JobEvent::Completed, now));
        assert(commands_view(atomic@) =~= seq![
            CommandView::HSet {
                key: job_key(self.keys@, job_id@),
                field: f_state(),
                value: state_name(JobState::Completed),
            },
            CommandView::HSet {
                key: job_key(self.keys@, job_id@),
                field: f_updated_at(),
                value: int_decimal(now as int),
            },
            CommandView::ZRem { key: queue_leased_key(self.keys@, job.queue@), member: job_id@ },
        ]);
        assert(commands_view(after@) =~= seq![
            CommandView::LPush {
                key: job_events_key(self.keys@, job_id@),
                value: event_entry(now, JobEvent::Completed),
            },
        ]);
        Ok(Some(Writes { atomic, after }))
    }

    /// Fails a leased job held by `worker_id`: sets its state, failure reason
    /// and update time and drops it from the leased set at once, then logs
    /// `failed`. A job the worker does not hold is refused first; one it
    /// holds that is not leased (completed and failed are final) is refused
    /// next. A refusal has no writes.
    pub fn nack_writes(
        &self,
        job_id: &str,
        job: &Job,
        worker_id: &str,
        reason: &str,
        now: i64,
    ) -> (r: Result<Writes, StorageError>)
        ensures
            !held_by(job@, worker_id@) ==> (r matches Err(e) && precondition_failed(
                e,
                msg_wrong_worker(),
            )),
            held_by(job@, worker_id@) && job.state != JobState::Leased ==> (r matches Err(e)
                && precondition_failed(e, msg_not_leased())),
            job@.worker_id != Some(worker_id@) ==> (r matches Err(e) && precondition_failed(
                e,
                msg_wrong_worker(),
            )),
            r is Ok ==> job@.worker_id == Some(worker_id@) && job.state == JobState::Leased,
            job.state == JobState::Leased && held_by(job@, worker_id@) ==> (r matches Ok(w)
                && commands_view(w.atomic@) == nack_atomic(
                self.keys@,
                job_id@,
                job.queue@,
                reason@,
                now,
            ) && commands_view(w.after@) == event_after(self.keys@, job_id@, now, JobEvent::Failed)),
    {
        proof {
            lemma_held_by_is_whole_id(job@, worker_id@);
        }
        if !held_by_worker(job, worker_id) {
            return Err(wrong_worker_error());
        }
        if job.state != JobState::Leased {
            return Err(not_leased_error());
        }
        proof {
            crate::codec::lemma_field_name_literals();
            reveal_strlit("failed");
            assert("failed"@ =~= state_name(JobState::Failed));
        }
        let key = self.keys.job(job_id);
        let mut atomic: Vec<Command> = Vec::new();
        atomic.push(Command::HSet { key: key.clone(), field: text("state"), value: text("failed") });
        atomic.push(
            Command::HSet { key: key.clone(), field: text("failure_reason"), value: text(reason) },
        );
        atomic.push(Command::HSet { key, field: text("updated_at"), value: i64_to_string(now) });
        atomic.push(
            Command::ZRem {
                key: self.keys.queue_leased(job.queue.as_str()),
                member: String::from_str(job_id),
            },
        );
        let mut after: Vec<Command> = Vec::new();
        after.push(self.event_command(job_id, JobEvent::Failed, now));
        assert(commands_view(atomic@) =~= seq![
            CommandView::HSet {
                key: job_key(self.keys@, job_id@),
                field: f_state(),
                value: state_name(JobState::Failed),
            },
            CommandView::HSet {
                key: job_key(self.keys@, job_id@),
                field: f_failure_reason(),
                value: reason@,
            },
            CommandView::HSet {
                key: job_key(self.keys@, job_id@),
                field: f_updated_at(),
                value: int_decimal(now as int),
            },
            CommandView::ZRem { key: queue_leased_key(self.keys@, job.queue@), member: job_id@ },
        ]);
        assert(commands_view(after@) =~= seq![
            CommandView::LPush {
                key: job_events_key(self.keys@, job_id@),
                value: event_entry(now, JobEvent::Failed),
            },
        ]);
        Ok(Writes { atomic, after })
    }

    /// Extends the lease of a leased job held by `worker_id` to
    /// `extension_ms` from `now`, counting one more renewal. Refused, with
    /// no writes, in this order: a job the worker does not hold, one that
    /// has used up `max_renewals`, and one that is not leased (only a job in
    /// progress has its lease renewed). Gives the new expiry.
    pub fn extend_lease_writes(
        &self,
        job_id: &str,
        job: &Job,
        worker_id: &str,
        extension_ms: u64,
        max_renewals: u32,
        now: i64,
    ) -> (r: Result<(Writes, i64), StorageError>)
        ensures
            !held_by(job@, worker_id@) ==> (r matches Err(e) && precondition_failed(
                e,
                msg_wrong_worker(),
            )),
            held_by(job@, worker_id@) && job.lease_renewals >= max_renewals ==> (r matches Err(e)
                && precondition_failed(e, msg_max_renewals())),
            job@.worker_id != Some(worker_id@) ==> (r matches Err(e) && precondition_failed(
                e,
                msg_wrong_worker(),
            )),
            r is Ok ==> job@.worker_id == Some(worker_id@) && job.state == JobState::Leased
                && job.lease_renewals < max_renewals,
            held_by(job@, worker_id@) && job.lease_renewals < max_renewals && job.state
                != JobState::Leased ==> (r matches Err(e) && precondition_failed(
                e,
                msg_not_leased(),
            )),
            job.state == JobState::Leased && held_by(job@, worker_id@) && job.lease_renewals
                < max_renewals && instant_after_spec(now, extension_ms) is None ==> (r matches Err(
                StorageError::Other(m),
            ) && m@ == msg_lease_out_of_range()),
            job.state == JobState::Leased && held_by(job@, worker_id@) && job.lease_renewals
                < max_renewals && instant_after_spec(
                now,
                extension_ms,
            ) is Some ==> (r matches Ok((w, e)) && e == instant_after_spec(now, extension_ms)->0
                && commands_view(w.atomic@) == extend_atomic(
                self.keys@,
                job_id@,
                job.queue@,
                e,
                job.lease_renewals + 1,
            ) && w.after@.len() == 0),
    {
        proof {
            lemma_held_by_is_whole_id(job@, worker_id@);
        }
        if !held_by_worker(job, worker_id) {
            return Err(wrong_worker_error());
        }
        if job.lease_renewals >= max_renewals {
            return Err(max_renewals_error());
        }
        if job.state != JobState::Leased {
            return Err(not_leased_error());
        }
        let exp = match instant_after(now, extension_ms) {
            Some(e) => e,
            None => {
                return Err(lease_range_error());
            },
        };
        let renewals: u32 = job.lease_renewals + 1;
        proof {
            crate::codec::lemma_field_name_literals();
        }
        let key = self.keys.job(job_id);
        let mut atomic: Vec<Command> = Vec::new();
        atomic.push(
            Command::HSet { key: key.clone(), field: text("lease_expires_at"), value: i64_to_string(exp) },
        );
        atomic.push(
            Command::HSet {
                key,
                field: text("lease_renewals"),
                value: crate::decimal::u64_to_string(renewals as u64),
            },
        );
        atomic.push(
            Command::ZAdd {
                key: self.keys.queue_leased(job.queue.as_str()),
                member: String::from_str(job_id),
                score: exp,
            },
        );
        assert(commands_view(atomic@) =~= seq![
            CommandView::HSet {
                key: job_key(self.keys@, job_id@),
                field: f_lease_expires_at(),
                value: int_decimal(exp as int),
            },
            CommandView::HSet {
                key: job_key(self.keys@, job_id@),
                field: f_lease_renewals(),
                value: int_decimal(job.lease_renewals + 1),
            },
            CommandView::ZAdd {
                key: queue_leased_key(self.keys@, job.queue@),
                member: job_id@,
                score: exp,
            },
        ]);
        Ok((Writes { atomic, after: Vec::new() }, exp))
    }

    /// Pops the oldest pending job of `queue` and leases it to `worker_id`
    /// until `lease_expiry`.
    pub fn claim_next_call(
        &self,
        queue: &str,
        worker_id: &str,
        lease_expiry: i64,
        updated_at: i64,
    ) -> (r: ScriptCall)
        ensures
            r.script == Script::ClaimNext,
            str_seq_view(r.keys@) == claim_next_keys(self.keys@, queue@),
            str_seq_view(r.args@) == claim_next_args(self.keys@, worker_id@, lease_expiry, updated_at),
    {
        let mut keys: Vec<String> = Vec::new();
        keys.push(self.keys.queue_pending(queue));
        keys.push(self.keys.queue_leased(queue));
        let mut args: Vec<String> = Vec::new();
        args.push(String::from_str(worker_id));
        args.push(i64_to_string(lease_expiry));
        args.push(i64_to_string(updated_at));
        args.push(self.keys.job_prefix());
        assert(str_seq_view(keys@) =~= seq![
            queue_pending_key(self.keys@, queue@),
            queue_leased_key(self.keys@, queue@),
        ]);
        assert(str_seq_view(args@) =~= seq![
            worker_id@,
            int_decimal(lease_expiry as int),
            int_decimal(updated_at as int),
            job_prefix_key(self.keys@),
        ]);
        ScriptCall { script: Script::ClaimNext, keys, args }
    }

    /// Leases job `job_id` of `queue` to `worker_id` until `lease_expiry`, if
    /// it is still pending.
    pub fn claim_by_id_call(
        &self,
        queue: &str,
        job_id: &str,
        worker_id: &str,
        lease_expiry: i64,
        updated_at: i64,
    ) -> (r: ScriptCall)
        ensures
            r.script == Script::ClaimById,
            str_seq_view(r.keys@) == claim_by_id_keys(self.keys@, queue@),
            str_seq_view(r.args@) == claim_by_id_args(
                self.keys@,
                job_id@,
                worker_id@,
                lease_expiry,
                updated_at,
            ),
    {
        let mut keys: Vec<String> = Vec::new();
        keys.push(self.keys.queue_leased(queue));
        let mut args: Vec<String> = Vec::new();
        args.push(String::from_str(job_id));
        args.push(String::from_str(worker_id));
        args.push(i64_to_string(lease_expiry));
        args.push(i64_to_string(updated_at));
        args.push(self.keys.job_prefix());
        assert(str_seq_view(keys@) =~= seq![queue_leased_key(self.keys@, queue@)]);
        assert(str_seq_view(args@) =~= seq![
            job_id@,
            worker_id@,
            int_decimal(lease_expiry as int),
            int_decimal(updated_at as int),
            job_prefix_key(self.keys@),
        ]);
        ScriptCall { script: Script::ClaimById, keys, args }
    }

    /// Puts job `job_id` of `queue` back on the pending list if its lease ran
    /// out by `now`.
    pub fn requeue_call(&self, queue: &str, job_id: &str, now: i64) -> (r: ScriptCall)
        ensures
            r.script == Script::RequeueExpired,
            str_seq_view(r.keys@) == requeue_keys(self.keys@, queue@),
            str_seq_view(r.args@) == requeue_args(self.keys@, job_id@, now),
    {
        let mut keys: Vec<String> = Vec::new();
        keys.push(self.keys.queue_leased(queue));
        keys.push(self.keys.queue_pending(queue));
        let mut args: Vec<String> = Vec::new();
        args.push(String::from_str(job_id));
        args.push(self.keys.job(job_id));
        args.push(i64_to_string(now));
        args.push(i64_to_string(now));
        assert(str_seq_view(keys@) =~= seq![
            queue_leased_key(self.keys@, queue@),
            queue_pending_key(self.keys@, queue@),
        ]);
        assert(str_seq_view(args@) =~= seq![
            job_id@,
            job_key(self.keys@, job_id@),
            int_decimal(now as int),
            int_decimal(now as int),
        ]);
        ScriptCall { script: Script::RequeueExpired, keys, args }
    }
}

/// What `instant_after` gives: the instant `duration_ms` after `now`, where
/// chrono can represent it.
pub open spec fn instant_after_spec(now: i64, duration_ms: u64) -> Option<i64> {
    let d: int = if duration_ms <= i64::MAX {
        duration_ms as int
    } else {
        duration_ms - 0x1_0000_0000_0000_0000
    };
    let t: int = now + d;
    if d != i64::MIN && i64::MIN <= t <= i64::MAX && chrono_millis_valid(t as i64) {
        Some(t as i64)
    } else {
        None
    }
}

pub open spec fn jobs_view(v: Seq<Job>) -> Seq<JobView> {
    v.map_values(|j: Job| j@)
}

pub open spec fn opt_job_view(o: Option<Job>) -> Option<JobView> {
    match o {
        Some(j) => Some(j@),
        None => None,
    }
}

pub open spec fn opt_jobs_view(v: Seq<Option<Job>>) -> Seq<Option<JobView>> {
    v.map_values(|o: Option<Job>| opt_job_view(o))
}

/// Whether a job passes the optional queue and state filters of a listing.
pub open spec fn listing_match(j: JobView, queue: Option<Seq<char>>, state: Option<JobState>) -> bool {
    (queue matches Some(q) ==> j.queue == q) && (state matches Some(s) ==> j.state == s)
}

/// The fetched jobs that pass the filters, in order; a job that could not be
/// fetched is passed over.
pub open spec fn matching_jobs(
    c: Seq<Option<JobView>>,
    queue: Option<Seq<char>>,
    state: Option<JobState>,
) -> Seq<JobView>
    decreases c.len(),
{
    if c.len() == 0 {
        Seq::<JobView>::empty()
    } else {
        let init = matching_jobs(c.drop_last(), queue, state);
        match c.last() {
            Some(j) => if listing_match(j, queue, state) {
                init.push(j)
            } else {
                init
            },
            None => init,
        }
    }
}

/// A listing keeps exactly the fetched jobs that pass its filters: each job
/// kept was fetched and has the queue and the state asked for, and each
/// fetched job that has them is kept.
pub proof fn lemma_listing_keeps_exactly_matches(
    c: Seq<Option<JobView>>,
    queue: Option<Seq<char>>,
    state: Option<JobState>,
)
    ensures
        forall|i: int|
            0 <= i < matching_jobs(c, queue, state).len() ==> {
                let j = #[trigger] matching_jobs(c, queue, state)[i];
                &&& (state matches Some(s) ==> j.state == s)
                &&& (queue matches Some(q) ==> j.queue == q)
                &&& c.contains(Some(j))
            },
        forall|k: int|
            0 <= k < c.len() && (#[trigger] c[k]) is Some && (state matches Some(s) ==> c[k]->0.state
                == s) && (queue matches Some(q) ==> c[k]->0.queue == q) ==> matching_jobs(
                c,
                queue,
                state,
            ).contains(c[k]->0),
    decreases c.len(),
{
    if c.len() > 0 {
        let init = c.drop_last();
        lemma_listing_keeps_exactly_matches(init, queue, state);
        let mi = matching_jobs(init, queue, state);
        let m = matching_jobs(c, queue, state);
        assert forall|i: int| 0 <= i < m.len() implies {
            let j = #[trigger] m[i];
            &&& (state matches Some(s) ==> j.state == s)
            &&& (queue matches Some(q) ==> j.queue == q)
            &&& c.contains(Some(j))
        } by {
            if i < mi.len() {
                assert(m[i] == mi[i]);
                let j = mi[i];
                assert(init.contains(Some(j)));
                let k = choose|k: int| 0 <= k < init.len() && init[k] == Some(j);
                assert(c[k] == Some(j));
            } else {
                assert(c[c.len() - 1] == c.last());
            }
        }
        assert forall|k: int|
            0 <= k < c.len() && (#[trigger] c[k]) is Some && (state matches Some(s) ==> c[k]->0.state
                == s) && (queue matches Some(q) ==> c[k]->0.queue == q) implies m.contains(
            c[k]->0,
        ) by {
            if k < init.len() {
                assert(init[k] == c[k]);
                let i = choose|i: int| 0 <= i < mi.len() && mi[i] == c[k]->0;
                assert(m[i] == mi[i]);
            } else {
                assert(c[k] == c.last());
                assert(m[m.len() - 1] == c[k]->0);
            }
        }
    }
}

proof fn lemma_matching_prefix(
    c: Seq<Option<JobView>>,
    queue: Option<Seq<char>>,
    state: Option<JobState>,
    i: int,
    k: int,
)
    requires
        0 <= i <= k <= c.len(),
    ensures
        matching_jobs(c.take(i), queue, state).len() <= matching_jobs(c.take(k), queue, state).len(),
        matching_jobs(c.take(k), queue, state).take(matching_jobs(c.take(i), queue, state).len() as int)
            == matching_jobs(c.take(i), queue, state),
    decreases k - i,
{
    let mi = matching_jobs(c.take(i), queue, state);
    if i == k {
        assert(mi.take(mi.len() as int) =~= mi);
    } else {
        lemma_matching_prefix(c, queue, state, i, k - 1);
        let mk1 = matching_jobs(c.take(k - 1), queue, state);
        assert(c.take(k).drop_last() =~= c.take(k - 1));
        let mk = matching_jobs(c.take(k), queue, state);
        assert(mk.take(mi.len() as int) =~= mk1.take(mi.len() as int));
    }
}

pub open spec fn opt_str_view(o: Option<&str>) -> Option<Seq<char>> {
    match o {
        Some(q) => Some(q@),
        None => None,
    }
}

/// A listing filled from fetched jobs in order, as plain values: what was
/// offered so far and the jobs kept.
pub struct JobListingView {
    pub jobs: Seq<JobView>,
    pub queue: Option<Seq<char>>,
    pub state: Option<JobState>,
    pub limit: nat,
    pub seen: Seq<Option<JobView>>,
}

/// A listing of jobs that pass a queue and a state filter, filled from
/// fetched jobs in order until it holds `limit` of them.
pub struct JobListing {
    jobs: Vec<Job>,
    queue: Option<String>,
    state: Option<JobState>,
    limit: usize,
    seen: Ghost<Seq<Option<JobView>>>,
}

impl View for JobListing {
    type V = JobListingView;

    closed spec fn view(&self) -> JobListingView {
        JobListingView {
            jobs: jobs_view(self.jobs@),
            queue: opt_chars(self.queue),
            state: self.state,
            limit: self.limit as nat,
            seen: self.seen@,
        }
    }
}

impl JobListing {
    #[verifier::type_invariant]
    spec fn well_formed(self) -> bool {
        &&& jobs_view(self.jobs@) == matching_jobs(self.seen@, opt_chars(self.queue), self.state)
        &&& self.jobs@.len() <= self.limit
    }

    pub fn new(queue: Option<&str>, state: Option<JobState>, limit: usize) -> (r: Self)
        ensures
            r@.jobs.len() == 0,
            r@.seen.len() == 0,
            r@.queue == opt_str_view(queue),
            r@.state == state,
            r@.limit == limit,
    {
        let queue = match queue {
            Some(q) => Some(String::from_str(q)),
            None => None,
        };
        let jobs: Vec<Job> = Vec::new();
        assert(jobs_view(jobs@) =~= Seq::<JobView>::empty());
        JobListing { jobs, queue, state, limit, seen: Ghost(Seq::<Option<JobView>>::empty()) }
    }

    /// Whether the listing wants more jobs.
    pub fn wants_more(&self) -> (r: bool)
        ensures
            r == (self@.jobs.len() < self@.limit),
    {
        self.jobs.len() < self.limit
    }

    /// Offers the next fetched job (`None` where it could not be fetched);
    /// it is kept if it passes the filters.
    pub fn offer(self, candidate: Option<Job>) -> (r: Self)
        requires
            self@.jobs.len() < self@.limit,
        ensures
            r@.seen == self@.seen.push(opt_job_view(candidate)),
            r@.jobs == matching_jobs(r@.seen, r@.queue, r@.state),
            r@.queue == self@.queue,
            r@.state == self@.state,
            r@.limit == self@.limit,
    {
        proof {
            use_type_invariant(&self);
        }
        let JobListing { jobs, queue, state, limit, seen } = self;
        let mut jobs = jobs;
        let ghost qv = opt_chars(queue);
        let ghost before = jobs_view(jobs@);
        let ghost seen2 = seen@.push(opt_job_view(candidate));
        assert(seen2.drop_last() =~= seen@);
        if let Some(job) = candidate {
            let queue_ok = match &queue {
                Some(q) => str_equals(job.queue.as_str(), q.as_str()),
                None => true,
            };
            let state_ok = match state {
                Some(st) => job.state == st,
                None => true,
            };
            assert(queue_ok == (qv matches Some(qq) ==> job@.queue == qq));
            assert(state_ok == (state matches Some(ss) ==> job@.state == ss));
            if queue_ok && state_ok {
                let ghost jv = job@;
                jobs.push(job);
                assert(jobs_view(jobs@) =~= before.push(jv));
            }
        }
        JobListing { jobs, queue, state, limit, seen: Ghost(seen2) }
    }

    /// The jobs kept: those offered that pass the filters, in order, never
    /// more than `limit`.
    pub fn into_jobs(self) -> (r: Vec<Job>)
        ensures
            jobs_view(r@) == matching_jobs(self@.seen, self@.queue, self@.state),
            r@.len() <= self@.limit,
            forall|i: int|
                0 <= i < r@.len() ==> (self@.state matches Some(s) ==> (#[trigger] r@[i]).state == s)
                    && (self@.queue matches Some(q) ==> r@[i].queue@ == q),
    {
        proof {
            use_type_invariant(&self);
            lemma_listing_keeps_exactly_matches(self@.seen, self@.queue, self@.state);
            let m = matching_jobs(self@.seen, self@.queue, self@.state);
            assert forall|i: int| 0 <= i < self.jobs@.len() implies (self@.state matches Some(s) ==> (
            #[trigger] self.jobs@[i]).state == s) && (self@.queue matches Some(q)
                ==> self.jobs@[i].queue@ == q) by {
                assert(jobs_view(self.jobs@)[i] == self.jobs@[i]@);
                assert(m[i] == self.jobs@[i]@);
            }
        }
        self.jobs
    }
}

/// The first `limit` fetched jobs that pass the filters, in order.
pub fn select_listed(
    candidates: Vec<Option<Job>>,
    queue: Option<&str>,
    state: Option<JobState>,
    limit: usize,
) -> (r: Vec<Job>)
    ensures
        ({
            let m = matching_jobs(opt_jobs_view(candidates@), opt_str_view(queue), state);
            jobs_view(r@) == m.take(if m.len() < limit {
                m.len() as int
            } else {
                limit as int
            })
        }),
        r@.len() <= limit,
        forall|i: int|
            0 <= i < r@.len() ==> (state matches Some(s) ==> (#[trigger] r@[i]).state == s) && (
            queue matches Some(q) ==> r@[i].queue@ == q@),
{
    let ghost c = opt_jobs_view(candidates@);
    let ghost qv = opt_str_view(queue);
    let n = candidates.len();
    let mut src = candidates;
    let mut rev: Vec<Option<Job>> = Vec::new();
    while src.len() > 0
        invariant
            n == candidates@.len(),
            src@.len() + rev@.len() == n,
            forall|k: int| 0 <= k < src@.len() ==> src@[k] == candidates@[k],
            forall|k: int| 0 <= k < rev@.len() ==> rev@[k] == candidates@[n - 1 - k],
        decreases src@.len(),
    {
        let x = src.pop().unwrap();
        rev.push(x);
    }
    let mut listing = JobListing::new(queue, state, limit);
    let mut i: usize = 0;
    while i < n && listing.wants_more()
        invariant
            n == c.len(),
            c == opt_jobs_view(candidates@),
            i <= n,
            rev@.len() == n - i,
            forall|k: int| 0 <= k < rev@.len() ==> rev@[k] == candidates@[n - 1 - k],
            listing@.seen == c.take(i as int),
            listing@.queue == qv,
            listing@.state == state,
            listing@.limit == limit,
            listing@.jobs == matching_jobs(c.take(i as int), qv, state),
        decreases n - i,
    {
        let next = rev.pop().unwrap();
        assert(next == candidates@[i as int]);
        listing = listing.offer(next);
        assert(c.take(i + 1) =~= c.take(i as int).push(opt_job_view(next)));
        i = i + 1;
    }
    let jobs = listing.into_jobs();
    proof {
        lemma_matching_prefix(c, qv, state, i as int, n as int);
        assert(c.take(n as int) =~= c);
        let m = matching_jobs(c, qv, state);
        let got = matching_jobs(c.take(i as int), qv, state);
        if i < n {
            assert(got.len() == limit);
        } else {
            assert(got =~= m);
            assert(m.take(m.len() as int) =~= m);
        }
    }
    jobs
}

/// The job read from the fields found under its key: `NotFound` when there
/// are none, `Other("corrupt job")` when they do not describe a job.
pub fn job_from_hash(fields: &Vec<(String, String)>, now: i64) -> (r: Result<Job, StorageError>)
    ensures
        fields@.len() == 0 ==> r matches Err(StorageError::NotFound),
        fields@.len() > 0 && decode_job_fields(pairs_view(fields@), now) is None ==> (r matches Err(
            StorageError::Other(m),
        ) && m@ == msg_corrupt_job()),
        fields@.len() > 0 && decode_job_fields(pairs_view(fields@), now) is Some ==> (r matches Ok(
            j,
        ) && decode_job_fields(pairs_view(fields@), now) == Some(j@)),
        forall|j: JobView|
            crate::codec::storable(j) && pairs_view(fields@) == #[trigger] job_fields(j) ==> (r matches Ok(
                x,
            ) && x@ == j),
{
    if fields.len() == 0 {
        proof {
            assert forall|j: JobView|
                crate::codec::storable(j) && pairs_view(fields@) == #[trigger] job_fields(j)
                implies false by {
                assert(pairs_view(fields@).len() == 0);
            }
        }
        return Err(StorageError::NotFound);
    }
    match hash_to_job(fields, now) {
        Some(j) => Ok(j),
        None => {
            proof {
                reveal_strlit("corrupt job");
                assert("corrupt job"@ =~= msg_corrupt_job());
            }
            Err(StorageError::Other(text("corrupt job")))
        },
    }
}

/// The lease expiry of a job claimed at `now` for `lease_duration_ms`;
/// `Other("lease out of range")` where chrono cannot represent it.
pub fn lease_expiry(now: i64, lease_duration_ms: u64) -> (r: Result<i64, StorageError>)
    ensures
        instant_after_spec(now, lease_duration_ms) matches Some(e) ==> r matches Ok(v) && v == e,
        instant_after_spec(now, lease_duration_ms) is None ==> (r matches Err(StorageError::Other(m))
            && m@ == msg_lease_out_of_range()),
{
    match instant_after(now, lease_duration_ms) {
        Some(e) => Ok(e),
        None => Err(lease_range_error()),
    }
}

/// The last rank of the recent index read for a listing of `limit` jobs:
/// four candidates per wanted job, and at least a hundred.
pub fn listing_stop_rank(limit: usize) -> (r: i64)
    requires
        limit * 4 <= i64::MAX,
    ensures
        r == (if limit * 4 > 100 {
            limit * 4
        } else {
            100
        }) - 1,
{
    let want: i64 = limit as i64 * 4;
    if want > 100 {
        want - 1
    } else {
        99
    }
}

/// How many jobs in `v` are in state `s`.
pub open spec fn count_in_state(v: Seq<JobView>, s: JobState) -> nat
    decreases v.len(),
{
    if v.len() == 0 {
        0
    } else {
        count_in_state(v.drop_last(), s) + if v.last().state == s {
            1nat
        } else {
            0nat
        }
    }
}

proof fn lemma_count_is_filter(v: Seq<JobView>, s: JobState, f: spec_fn(JobView) -> bool)
    requires
        forall|j: JobView| #[trigger] f(j) == (j.state == s),
    ensures
        count_in_state(v, s) == v.filter(f).len(),
    decreases v.len(),
{
    reveal(Seq::filter);
    if v.len() > 0 {
        lemma_count_is_filter(v.drop_last(), s, f);
        assert(f(v.last()) == (v.last().state == s));
    }
}

/// The count of a state is the number of jobs in exactly that state.
pub proof fn lemma_count_is_jobs_in_state(v: Seq<JobView>, s: JobState)
    ensures
        count_in_state(v, s) == v.filter(|j: JobView| j.state == s).len(),
{
    lemma_count_is_filter(v, s, |j: JobView| j.state == s);
}
/// The number of jobs in each state.
pub fn count_states(jobs: &Vec<Job>) -> (r: QueueStats)
    ensures
        r.pending == count_in_state(jobs_view(jobs@), JobState::Pending),
        r.leased == count_in_state(jobs_view(jobs@), JobState::Leased),
        r.completed == count_in_state(jobs_view(jobs@), JobState::Completed),
        r.failed == count_in_state(jobs_view(jobs@), JobState::Failed),
        r.pending == jobs_view(jobs@).filter(|j: JobView| j.state == JobState::Pending).len(),
        r.leased == jobs_view(jobs@).filter(|j: JobView| j.state == JobState::Leased).len(),
        r.completed == jobs_view(jobs@).filter(|j: JobView| j.state == JobState::Completed).len(),
        r.failed == jobs_view(jobs@).filter(|j: JobView| j.state == JobState::Failed).len(),
{
    proof {
        lemma_count_is_jobs_in_state(jobs_view(jobs@), JobState::Pending);
        lemma_count_is_jobs_in_state(jobs_view(jobs@), JobState::Leased);
        lemma_count_is_jobs_in_state(jobs_view(jobs@), JobState::Completed);
        lemma_count_is_jobs_in_state(jobs_view(jobs@), JobState::Failed);
    }
    let mut stats = QueueStats { pending: 0, leased: 0, completed: 0, failed: 0 };
    let mut i: usize = 0;
    while i < jobs.len()
        invariant
            i <= jobs@.len(),
            stats.pending + stats.leased + stats.completed + stats.failed == i,
            stats.pending == count_in_state(jobs_view(jobs@).take(i as int), JobState::Pending),
            stats.leased == count_in_state(jobs_view(jobs@).take(i as int), JobState::Leased),
            stats.completed == count_in_state(jobs_view(jobs@).take(i as int), JobState::Completed),
            stats.failed == count_in_state(jobs_view(jobs@).take(i as int), JobState::Failed),
        decreases jobs@.len() - i,
    {
        let ghost v = jobs_view(jobs@);
        assert(v.take(i + 1).drop_last() =~= v.take(i as int));
        assert(v.take(i + 1).last() == jobs@[i as int]@);
        match jobs[i].state {
            JobState::Pending => stats.pending = stats.pending + 1,
            JobState::Leased => stats.leased = stats.leased + 1,
            JobState::Completed => stats.completed = stats.completed + 1,
            JobState::Failed => stats.failed = stats.failed + 1,
        }
        i = i + 1;
    }
    assert(jobs_view(jobs@).take(jobs@.len() as int) =~= jobs_view(jobs@));
    stats
}

/// Every job is counted in exactly one state.
pub proof fn lemma_counts_cover(v: Seq<JobView>)
    ensures
        count_in_state(v, JobState::Pending) + count_in_state(v, JobState::Leased)
            + count_in_state(v, JobState::Completed) + count_in_state(v, JobState::Failed)
            == v.len(),
    decreases v.len(),
{
    if v.len() > 0 {
        lemma_counts_cover(v.drop_last());
    }
}

/// How many jobs one dequeue may claim: the asked number, between 1 and 64.
pub open spec fn batch_limit(max_jobs: u32) -> nat {
    if max_jobs < 1 {
        1
    } else if max_jobs > 64 {
        64
    } else {
        max_jobs as nat
    }
}

/// A dequeue never takes more jobs than asked for: it takes exactly
/// `max_jobs` when that is 1 to 64, one when asked for none, and 64 at most.
pub proof fn lemma_batch_limit_is_asked(max_jobs: u32)
    ensures
        1 <= batch_limit(max_jobs) <= 64,
        1 <= max_jobs <= 64 ==> batch_limit(max_jobs) == max_jobs,
        max_jobs >= 1 ==> batch_limit(max_jobs) <= max_jobs,
        max_jobs == 0 ==> batch_limit(max_jobs) == 1,
        max_jobs > 64 ==> batch_limit(max_jobs) == 64,
{
}

pub fn dequeue_batch_limit(max_jobs: u32) -> (r: usize)
    ensures
        r == batch_limit(max_jobs),
        1 <= r <= 64,
        1 <= max_jobs <= 64 ==> r == max_jobs,
        max_jobs >= 1 ==> r <= max_jobs,
{
    if max_jobs < 1 {
        1
    } else if max_jobs > 64 {
        64
    } else {
        max_jobs as usize
    }
}

/// After a dequeue found no pending job: `None` to stop waiting (no wait was
/// asked for, or the deadline has passed), else the seconds to block for the
/// next job, the whole seconds left clamped to 1..=30.
pub open spec fn block_seconds(wait_timeout_ms: u64, remaining_secs: u64, remaining_nanos: u32) -> Option<
    u64,
> {
    if wait_timeout_ms == 0 || (remaining_secs == 0 && remaining_nanos == 0) {
        None
    } else if remaining_secs < 1 {
        Some(1)
    } else if remaining_secs > 30 {
        Some(30)
    } else {
        Some(remaining_secs)
    }
}

/// A wait is never longer than 30 seconds nor, once a second or more is
/// left, longer than what is left; it is the whole seconds left when those
/// are 1 to 30, a second when less than one is left, and there is none
/// exactly when no wait was asked for or no time is left.
pub proof fn lemma_block_seconds_bounds(wait_timeout_ms: u64, remaining_secs: u64, remaining_nanos: u32)
    ensures
        block_seconds(wait_timeout_ms, remaining_secs, remaining_nanos) is None <==> (wait_timeout_ms
            == 0 || (remaining_secs == 0 && remaining_nanos == 0)),
        block_seconds(wait_timeout_ms, remaining_secs, remaining_nanos) matches Some(x) ==> 1 <= x
            <= 30 && (remaining_secs >= 1 ==> x <= remaining_secs),
        block_seconds(wait_timeout_ms, remaining_secs, remaining_nanos) matches Some(x) ==> (1
            <= remaining_secs <= 30 ==> x == remaining_secs) && (remaining_secs == 0 ==> x == 1)
            && (remaining_secs > 30 ==> x == 30),
{
}

pub fn dequeue_block_seconds(wait_timeout_ms: u64, remaining_secs: u64, remaining_nanos: u32) -> (r:
    Option<u64>)
    ensures
        r == block_seconds(wait_timeout_ms, remaining_secs, remaining_nanos),
{
    if wait_timeout_ms == 0 || (remaining_secs == 0 && remaining_nanos == 0) {
        return None;
    }
    Some(
        if remaining_secs < 1 {
            1
        } else if remaining_secs > 30 {
            30
        } else {
            remaining_secs
        },
    )
}

/// One sweep of expired leases: how many jobs it has put back so far.
pub struct SweepTally {
    pub released: u64,
}

impl SweepTally {
    pub fn new() -> (r: Self)
        ensures
            r.released == 0,
    {
        SweepTally { released: 0 }
    }

    /// After a `RequeueExpired` run answered `reply`: `1` means the job went
    /// back to its queue, so it is counted and its `lease_expired` event is
    /// due (the answer); any other reply changes nothing.
    pub fn after_requeue(&mut self, reply: i32) -> (r: bool)
        requires
            reply == 1 ==> old(self).released < u64::MAX,
        ensures
            r == (reply == 1),
            final(self).released == old(self).released + if reply == 1 {
                1int
            } else {
                0int
            },
    {
        if reply == 1 {
            self.released = self.released + 1;
            true
        } else {
            false
        }
    }
}

/// The number of jobs a queue's statistics are counted over.
pub const QUEUE_STATS_SAMPLE: usize = 10_000;

} // verus!
