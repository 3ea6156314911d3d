//! Request checks and defaults of the queue API, before anything is stored.
use vstd::prelude::*;
use crate::clock::{chrono_millis_valid, now_millis};
use crate::config::AppConfig;
use crate::decimal::{int_decimal, push_decimal, decimal_digits};
use crate::job::{new_job_view, Job};
use crate::store::{str_seq_view, StorageError};
use crate::text::chars_of;

verus! {

/// The text shape of a version 7 UUID: 36 characters, lowercase hex digits
/// with hyphens at positions 8, 13, 18 and 23, the version digit `7` at
/// position 14 and the variant digit (`8`, `9`, `a` or `b`) at position 19.
pub open spec fn uuid_v7_shape(id: Seq<char>) -> bool {
    &&& id.len() == 36
    &&& forall|i: int|
        0 <= i < 36 ==> if i == 8 || i == 13 || i == 18 || i == 23 {
            #[trigger] id[i] == '-'
        } else {
            ('0' <= id[i] && id[i] <= '9') || ('a' <= id[i] && id[i] <= 'f')
        }
    &&& id[14] == '7'
    &&& id[19] == '8' || id[19] == '9' || id[19] == 'a' || id[19] == 'b'
}

/// `uuid::Uuid::now_v7().to_string()`: a fresh time-ordered id. Nothing is
/// claimed of its value but its shape.
#[verifier::external_body]
fn new_job_id() -> (id: String)
    ensures
        uuid_v7_shape(id@),
{
    uuid::Uuid::now_v7().to_string()
}

pub open spec fn is_queue_char(c: char) -> bool {
    ('a' <= c && c <= 'z') || ('A' <= c && c <= 'Z') || ('0' <= c && c <= '9') || c == '-' || c
        == '_'
}

/// The length of a character in UTF-8, as `char::len_utf8` gives it.
pub open spec fn utf8_width(c: char) -> nat {
    if (c as u32) < 0x80 {
        1
    } else if (c as u32) < 0x800 {
        2
    } else if (c as u32) < 0x10000 {
        3
    } else {
        4
    }
}

/// The length of a name in bytes, as `str::len` counts it.
pub open spec fn byte_len(s: Seq<char>) -> nat
    decreases s.len(),
{
    if s.len() == 0 {
        0
    } else {
        byte_len(s.drop_last()) + utf8_width(s.last())
    }
}

/// `min(byte_len(s), cap + 1)`: the byte length of `s`, counted no further
/// than one past `cap`.
fn byte_len_upto(s: &str, cap: u64) -> (r: u64)
    requires
        cap < u64::MAX - 4,
    ensures
        r <= cap <==> byte_len(s@) <= cap,
        r <= cap ==> r == byte_len(s@),
{
    let cs = chars_of(s);
    let mut n: u64 = 0;
    let mut i: usize = 0;
    while i < cs.len()
        invariant
            cs@ == s@,
            i <= cs@.len(),
            cap < u64::MAX - 4,
            n == byte_len(cs@.take(i as int)),
            n <= cap,
        decreases cs@.len() - i,
    {
        let c = cs[i];
        let w: u64 = if (c as u32) < 0x80 {
            1
        } else if (c as u32) < 0x800 {
            2
        } else if (c as u32) < 0x10000 {
            3
        } else {
            4
        };
        assert(cs@.take(i + 1).drop_last() =~= cs@.take(i as int));
        n = n + w;
        i = i + 1;
        if n > cap {
            proof {
                lemma_byte_len_grows(cs@, i as int);
            }
            return n;
        }
    }
    assert(cs@.take(cs@.len() as int) =~= cs@);
    n
}

proof fn lemma_byte_len_grows(s: Seq<char>, i: int)
    requires
        0 <= i <= s.len(),
    ensures
        byte_len(s.take(i)) <= byte_len(s),
    decreases s.len() - i,
{
    if i < s.len() {
        lemma_byte_len_grows(s, i + 1);
        assert(s.take(i + 1).drop_last() =~= s.take(i));
    } else {
        assert(s.take(i) =~= s);
    }
}

proof fn lemma_byte_len_at_least_len(s: Seq<char>)
    ensures
        byte_len(s) >= s.len(),
        (forall|i: int| 0 <= i < s.len() ==> (#[trigger] s[i] as u32) < 0x80) ==> byte_len(s)
            == s.len(),
    decreases s.len(),
{
    if s.len() > 0 {
        lemma_byte_len_at_least_len(s.drop_last());
        if forall|i: int| 0 <= i < s.len() ==> (#[trigger] s[i] as u32) < 0x80 {
            assert forall|i: int| 0 <= i < s.drop_last().len() implies (
            #[trigger] s.drop_last()[i] as u32) < 0x80 by {
                assert(s.drop_last()[i] == s[i]);
            }
            assert((s[s.len() - 1] as u32) < 0x80);
        }
    }
}

/// The queue name rules: a name of 1 to 64 characters, each an ASCII letter
/// of either case, a digit, `-` or `_`, is accepted; a name with any other
/// character, an empty name and one over 64 characters are refused.
pub proof fn lemma_queue_name_rules(n: Seq<char>)
    ensures
        (1 <= n.len() <= 64 && forall|i: int|
            0 <= i < n.len() ==> ('a' <= #[trigger] n[i] <= 'z') || ('A' <= n[i] <= 'Z') || ('0'
                <= n[i] <= '9') || n[i] == '-' || n[i] == '_') ==> queue_name_problem(n) is None,
        (exists|i: int|
            0 <= i < n.len() && !(('a' <= #[trigger] n[i] <= 'z') || ('A' <= n[i] <= 'Z') || ('0'
                <= n[i] <= '9') || n[i] == '-' || n[i] == '_')) ==> queue_name_problem(n) is Some,
        n.len() == 0 || n.len() > 64 ==> queue_name_problem(n) == Some(msg_queue_length()),
{
    lemma_byte_len_at_least_len(n);
    if 1 <= n.len() <= 64 && forall|i: int|
        0 <= i < n.len() ==> ('a' <= #[trigger] n[i] <= 'z') || ('A' <= n[i] <= 'Z') || ('0' <= n[i]
            <= '9') || n[i] == '-' || n[i] == '_' {
        assert forall|i: int| 0 <= i < n.len() implies (#[trigger] n[i] as u32) < 0x80 by {
            assert(('a' <= n[i] <= 'z') || ('A' <= n[i] <= 'Z') || ('0' <= n[i] <= '9') || n[i]
                == '-' || n[i] == '_');
        }
        assert forall|i: int| 0 <= i < n.len() implies is_queue_char(#[trigger] n[i]) by {
            assert(('a' <= n[i] <= 'z') || ('A' <= n[i] <= 'Z') || ('0' <= n[i] <= '9') || n[i]
                == '-' || n[i] == '_');
        }
    }
    if exists|i: int|
        0 <= i < n.len() && !(('a' <= #[trigger] n[i] <= 'z') || ('A' <= n[i] <= 'Z') || ('0' <= n[i]
            <= '9') || n[i] == '-' || n[i] == '_') {
        let i = choose|i: int|
            0 <= i < n.len() && !(('a' <= #[trigger] n[i] <= 'z') || ('A' <= n[i] <= 'Z') || ('0'
                <= n[i] <= '9') || n[i] == '-' || n[i] == '_');
        assert(!is_queue_char(n[i]));
    }
}

/// The task name rules: a name of 1 to 128 ASCII characters is accepted;
/// an empty name and one over 128 characters are refused.
pub proof fn lemma_task_name_rules(n: Seq<char>)
    ensures
        (1 <= n.len() <= 128 && forall|i: int| 0 <= i < n.len() ==> (#[trigger] n[i] as u32) < 0x80)
            ==> task_name_problem(n) is None,
        n.len() == 0 || n.len() > 128 ==> task_name_problem(n) == Some(msg_task_length()),
{
    lemma_byte_len_at_least_len(n);
}

pub open spec fn msg_queue_length() -> Seq<char> {
    "queue name must be 1-64 chars"@
}

pub open spec fn msg_queue_chars() -> Seq<char> {
    "invalid queue name"@
}

pub open spec fn msg_task_length() -> Seq<char> {
    "task name must be 1-128 chars"@
}

/// Why a queue name is refused, if it is: it must be 1 to 64 bytes of ASCII
/// letters, digits, `-` and `_`.
pub open spec fn queue_name_problem(n: Seq<char>) -> Option<Seq<char>> {
    if n.len() == 0 || byte_len(n) > 64 {
        Some(msg_queue_length())
    } else if exists|i: int| 0 <= i < n.len() && !is_queue_char(#[trigger] n[i]) {
        Some(msg_queue_chars())
    } else {
        None
    }
}

/// Why a task name is refused, if it is: it must be 1 to 128 bytes.
pub open spec fn task_name_problem(n: Seq<char>) -> Option<Seq<char>> {
    if n.len() == 0 || byte_len(n) > 128 {
        Some(msg_task_length())
    } else {
        None
    }
}

/// `payload exceeds max {max} bytes`
pub open spec fn msg_payload_too_large(max: usize) -> Seq<char> {
    "payload exceeds max "@ + int_decimal(max as int) + " bytes"@
}

/// The queue a job goes to: an empty name means `default`.
pub open spec fn effective_queue(q: Seq<char>) -> Seq<char> {
    if q.len() == 0 {
        "default"@
    } else {
        q
    }
}

/// A named queue is kept as named; only an empty name means `default`, and
/// the queue a job goes to is never empty.
pub proof fn lemma_effective_queue(q: Seq<char>)
    ensures
        q.len() > 0 ==> effective_queue(q) == q,
        q.len() == 0 ==> effective_queue(q) == "default"@,
        effective_queue(q).len() > 0,
{
    reveal_strlit("default");
}

/// How a dequeue is carried out.
#[derive(Clone, Debug)]
pub struct DequeueRequest {
    pub queues: Vec<String>,
    pub lease_duration_ms: u64,
    pub wait_timeout_ms: u64,
    pub max_jobs: u32,
}

/// The queue API's rules on top of the store.
pub struct QueueService {
    pub config: AppConfig,
}

impl QueueService {
    pub fn new(config: AppConfig) -> (r: Self)
        ensures
            r.config == config,
    {
        QueueService { config }
    }

    pub fn validate_queue(name: &str) -> (r: Result<(), String>)
        ensures
            r is Ok <==> queue_name_problem(name@) is None,
            r matches Err(m) ==> queue_name_problem(name@) == Some(m@),
            (1 <= name@.len() <= 64 && forall|i: int|
                0 <= i < name@.len() ==> ('a' <= #[trigger] name@[i] <= 'z') || ('A' <= name@[i]
                    <= 'Z') || ('0' <= name@[i] <= '9') || name@[i] == '-' || name@[i] == '_')
                ==> r is Ok,
            (exists|i: int|
                0 <= i < name@.len() && !(('a' <= #[trigger] name@[i] <= 'z') || ('A' <= name@[i]
                    <= 'Z') || ('0' <= name@[i] <= '9') || name@[i] == '-' || name@[i] == '_'))
                ==> r is Err,
    {
        proof {
            lemma_queue_name_rules(name@);
        }
        if name.is_empty() || byte_len_upto(name, 64) > 64 {
            return Err(String::from_str("queue name must be 1-64 chars"));
        }
        let cs = chars_of(name);
        let mut i: usize = 0;
        while i < cs.len()
            invariant
                cs@ == name@,
                name@.len() != 0,
                byte_len(name@) <= 64,
                i <= cs@.len(),
                forall|k: int| 0 <= k < i ==> is_queue_char(#[trigger] cs@[k]),
            decreases cs@.len() - i,
        {
            let c = cs[i];
            if !(('a' <= c && c <= 'z') || ('A' <= c && c <= 'Z') || ('0' <= c && c <= '9') || c
                == '-' || c == '_') {
                assert(!is_queue_char(name@[i as int]));
                return Err(String::from_str("invalid queue name"));
            }
            i = i + 1;
        }
        Ok(())
    }

    pub fn validate_task_name(name: &str) -> (r: Result<(), String>)
        ensures
            r is Ok <==> task_name_problem(name@) is None,
            r matches Err(m) ==> task_name_problem(name@) == Some(m@),
    {
        if name.is_empty() || byte_len_upto(name, 128) > 128 {
            return Err(String::from_str("task name must be 1-128 chars"));
        }
        Ok(())
    }

    /// The job an enqueue request makes, with the given id, at the instant
    /// `now`; refused when the queue or task name is invalid or the payload
    /// is over the configured limit.
    pub fn prepare_enqueue(
        &self,
        queue: &str,
        name: &str,
        payload: Vec<u8>,
        priority: i32,
        id: String,
        now: i64,
    ) -> (r: Result<Job, StorageError>)
        ensures
            queue_name_problem(effective_queue(queue@)) matches Some(m) ==> (r matches Err(
                StorageError::Other(e),
            ) && e@ == m),
            queue_name_problem(effective_queue(queue@)) is None && task_name_problem(name@) is Some
                ==> (r matches Err(StorageError::Other(e)) && Some(e@) == task_name_problem(name@)),
            queue_name_problem(effective_queue(queue@)) is None && task_name_problem(name@) is None
                && payload@.len() > self.config.max_payload_bytes ==> (r matches Err(
                StorageError::Other(e),
            ) && e@ == msg_payload_too_large(self.config.max_payload_bytes)),
            queue_name_problem(effective_queue(queue@)) is None && task_name_problem(name@) is None
                && payload@.len() <= self.config.max_payload_bytes ==> (r matches Ok(j) && j@
                == new_job_view(id@, effective_queue(queue@), name@, payload@, priority, now)),
    {
        let queue: &str = if queue.is_empty() {
            "default"
        } else {
            queue
        };
        if let Err(e) = QueueService::validate_queue(queue) {
            return Err(StorageError::Other(e));
        }
        if let Err(e) = QueueService::validate_task_name(name) {
            return Err(StorageError::Other(e));
        }
        if payload.len() > self.config.max_payload_bytes {
            let mut m = String::from_str("payload exceeds max ");
            push_decimal(&mut m, self.config.max_payload_bytes as u64);
            m.append(" bytes");
            assert(decimal_digits(self.config.max_payload_bytes as nat) == int_decimal(
                self.config.max_payload_bytes as int,
            ));
            assert(m@ =~= msg_payload_too_large(self.config.max_payload_bytes));
            return Err(StorageError::Other(m));
        }
        Ok(Job::new_at(id, String::from_str(queue), String::from_str(name), payload, priority, now))
    }

    /// The job an enqueue request makes now, under a fresh id.
    pub fn enqueue_job(&self, queue: &str, name: &str, payload: Vec<u8>, priority: i32) -> (r:
        Result<Job, StorageError>)
        ensures
            queue_name_problem(effective_queue(queue@)) matches Some(m) ==> (r matches Err(
                StorageError::Other(e),
            ) && e@ == m),
            queue_name_problem(effective_queue(queue@)) is None && task_name_problem(name@) is Some
                ==> (r matches Err(StorageError::Other(e)) && Some(e@) == task_name_problem(name@)),
            queue_name_problem(effective_queue(queue@)) is None && task_name_problem(name@) is None
                && payload@.len() > self.config.max_payload_bytes ==> (r matches Err(
                StorageError::Other(e),
            ) && e@ == msg_payload_too_large(self.config.max_payload_bytes)),
            queue_name_problem(effective_queue(queue@)) is None && task_name_problem(name@) is None
                && payload@.len() <= self.config.max_payload_bytes ==> (r matches Ok(j) && j@
                == new_job_view(j.id@, effective_queue(queue@), name@, payload@, priority, j.created_at)
                && uuid_v7_shape(j.id@) && chrono_millis_valid(j.created_at)),
    {
        let id = new_job_id();
        let now = now_millis();
        self.prepare_enqueue(queue, name, payload, priority, id, now)
    }

    /// How a dequeue request is carried out: the `default` queue when none is
    /// named, no waiting for a non-positive timeout, one job for a
    /// non-positive count, and the configured lease duration.
    pub fn dequeue_request(&self, queues: &Vec<String>, wait_timeout_ms: i32, max_jobs: i32) -> (r:
        DequeueRequest)
        ensures
            str_seq_view(r.queues@) == (if queues@.len() == 0 {
                seq!["default"@]
            } else {
                str_seq_view(queues@)
            }),
            r.lease_duration_ms == self.config.default_lease_duration_ms,
            r.wait_timeout_ms == (if wait_timeout_ms <= 0 {
                0
            } else {
                wait_timeout_ms as int
            }),
            r.max_jobs == (if max_jobs <= 0 {
                1
            } else {
                max_jobs as int
            }),
    {
        let mut qs: Vec<String> = Vec::new();
        if queues.len() == 0 {
            qs.push(String::from_str("default"));
            assert(str_seq_view(qs@) =~= seq!["default"@]);
        } else {
            let mut i: usize = 0;
            while i < queues.len()
                invariant
                    i <= queues@.len(),
                    str_seq_view(qs@) == str_seq_view(queues@).take(i as int),
                decreases queues@.len() - i,
            {
                let q = queues[i].clone();
                assert(q@ == queues@[i as int]@);
                let ghost before = str_seq_view(qs@);
                qs.push(q);
                assert(str_seq_view(qs@) =~= before.push(q@));
                assert(str_seq_view(queues@).take(i + 1) =~= str_seq_view(queues@).take(i as int).push(
                    queues@[i as int]@,
                ));
                i = i + 1;
            }
            assert(str_seq_view(queues@).take(queues@.len() as int) =~= str_seq_view(queues@));
        }
        let wait: u64 = if wait_timeout_ms <= 0 {
            0
        } else {
            wait_timeout_ms as u64
        };
        let max: u32 = if max_jobs <= 0 {
            1
        } else {
            max_jobs as u32
        };
        DequeueRequest {
            queues: qs,
            lease_duration_ms: self.config.default_lease_duration_ms,
            wait_timeout_ms: wait,
            max_jobs: max,
        }
    }
}

} // verus!
