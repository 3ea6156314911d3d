//! What the store's commands and scripts do to the data in Redis, and the
//! delivery guarantees that follow: a stored job reads back, a job is leased
//! to one worker at a time, acks are idempotent, a job whose lease runs out
//! goes back to its queue, and every operation keeps the pending lists sound
//! (each id once, and only ids of jobs pending in that queue).
use vstd::prelude::*;
use crate::codec::{
    base64_decoding, base64_encoding, decode_job, describes, f_lease_expires_at, f_queue, f_state,
    f_updated_at, f_worker_id, job_fields, lemma_decode_described, storable,
};
use crate::decimal::{int_decimal, parse_int};
use crate::job::{state_name, JobState, JobView};
use crate::keys::{job_key, queue_leased_key, queue_pending_key, queue_registry_key, recent_jobs_key};
use crate::store::{enqueue_atomic, CommandView, Script};

verus! {

/// The data of a Redis server, by kind of value.
#[verifier::ext_equal]
pub struct RedisModel {
    pub hashes: Map<Seq<char>, Map<Seq<char>, Seq<char>>>,
    /// Index 0 is the head, where `LPUSH` adds; `RPOP` takes the last.
    pub lists: Map<Seq<char>, Seq<Seq<char>>>,
    pub zsets: Map<Seq<char>, Map<Seq<char>, i64>>,
    pub sets: Map<Seq<char>, Set<Seq<char>>>,
}

impl RedisModel {
    pub open spec fn hash(self, k: Seq<char>) -> Map<Seq<char>, Seq<char>> {
        if self.hashes.contains_key(k) {
            self.hashes[k]
        } else {
            Map::empty()
        }
    }

    pub open spec fn list(self, k: Seq<char>) -> Seq<Seq<char>> {
        if self.lists.contains_key(k) {
            self.lists[k]
        } else {
            Seq::empty()
        }
    }

    pub open spec fn zset(self, k: Seq<char>) -> Map<Seq<char>, i64> {
        if self.zsets.contains_key(k) {
            self.zsets[k]
        } else {
            Map::empty()
        }
    }

    pub open spec fn set(self, k: Seq<char>) -> Set<Seq<char>> {
        if self.sets.contains_key(k) {
            self.sets[k]
        } else {
            Set::empty()
        }
    }
}

/// `HSET` of several fields, the later of two equal names winning.
pub open spec fn hset_all(h: Map<Seq<char>, Seq<char>>, fields: Seq<(Seq<char>, Seq<char>)>) -> Map<
    Seq<char>,
    Seq<char>,
>
    decreases fields.len(),
{
    if fields.len() == 0 {
        h
    } else {
        hset_all(h, fields.drop_last()).insert(fields.last().0, fields.last().1)
    }
}

/// The value of field `k` of a hash.
pub open spec fn field(h: Map<Seq<char>, Seq<char>>, k: Seq<char>) -> Option<Seq<char>> {
    if h.contains_key(k) {
        Some(h[k])
    } else {
        None
    }
}

/// The job a hash holds, as `HGETALL` and the job decoding read it.
pub open spec fn decode_job_hash(h: Map<Seq<char>, Seq<char>>, now: i64) -> Option<JobView> {
    decode_job(|k: Seq<char>| field(h, k), now)
}

/// Whether `kept` holds the `n` highest-scored members of `z` (all of them
/// if there are fewer), with their scores: no member left out scores higher
/// than one kept.
pub open spec fn keeps_top(z: Map<Seq<char>, i64>, kept: Map<Seq<char>, i64>, n: nat) -> bool {
    &&& kept.submap_of(z)
    &&& kept.dom().len() == (if n < z.dom().len() {
        n
    } else {
        z.dom().len()
    })
    &&& forall|a: Seq<char>, b: Seq<char>|
        z.dom().contains(a) && !kept.dom().contains(a) && #[trigger] kept.dom().contains(b)
            ==> #[trigger] z[a] <= z[b]
}

/// `ZREMRANGEBYRANK key 0 -(n + 1)`: ranks run from the lowest score up, so
/// the `n` highest-scored members stay. Among equal scores Redis orders by
/// member, which the model leaves open. The store sends no other range;
/// another range keeps some part of the set.
pub open spec fn zset_trimmed(z: Map<Seq<char>, i64>, start: i64, stop: i64) -> Map<Seq<char>, i64> {
    if start == 0 && stop < 0 {
        let n: nat = (-stop - 1) as nat;
        choose|m: Map<Seq<char>, i64>| #[trigger] keeps_top(z, m, n)
    } else {
        choose|m: Map<Seq<char>, i64>| m.submap_of(z)
    }
}

/// What one command does.
pub open spec fn apply_command(s: RedisModel, c: CommandView) -> RedisModel {
    match c {
        CommandView::HSetFields { key, fields } => RedisModel {
            hashes: s.hashes.insert(key, hset_all(s.hash(key), fields)),
            ..s
        },
        CommandView::HSet { key, field, value } => RedisModel {
            hashes: s.hashes.insert(key, s.hash(key).insert(field, value)),
            ..s
        },
        CommandView::LPush { key, value } => RedisModel {
            lists: s.lists.insert(key, seq![value] + s.list(key)),
            ..s
        },
        CommandView::SAdd { key, member } => RedisModel {
            sets: s.sets.insert(key, s.set(key).insert(member)),
            ..s
        },
        CommandView::ZAdd { key, member, score } => RedisModel {
            zsets: s.zsets.insert(key, s.zset(key).insert(member, score)),
            ..s
        },
        CommandView::ZRem { key, member } => RedisModel {
            zsets: s.zsets.insert(key, s.zset(key).remove(member)),
            ..s
        },
        CommandView::ZRemRangeByRank { key, start, stop } => RedisModel {
            zsets: s.zsets.insert(key, zset_trimmed(s.zset(key), start, stop)),
            ..s
        },
    }
}

/// What a sequence of commands does, in order.
pub open spec fn apply_commands(s: RedisModel, cs: Seq<CommandView>) -> RedisModel
    decreases cs.len(),
{
    if cs.len() == 0 {
        s
    } else {
        apply_command(apply_commands(s, cs.drop_last()), cs.last())
    }
}

pub proof fn lemma_apply_push(s: RedisModel, cs: Seq<CommandView>, c: CommandView)
    ensures
        apply_commands(s, cs.push(c)) == apply_command(apply_commands(s, cs), c),
{
    assert(cs.push(c).drop_last() =~= cs);
}

pub proof fn lemma_apply_3(s: RedisModel, cs: Seq<CommandView>)
    requires
        cs.len() == 3,
    ensures
        apply_commands(s, cs) == apply_command(
            apply_command(apply_command(s, cs[0]), cs[1]),
            cs[2],
        ),
{
    let e = Seq::<CommandView>::empty();
    lemma_apply_push(s, e, cs[0]);
    lemma_apply_push(s, seq![cs[0]], cs[1]);
    lemma_apply_push(s, seq![cs[0], cs[1]], cs[2]);
    assert(e.push(cs[0]) =~= seq![cs[0]]);
    assert(seq![cs[0]].push(cs[1]) =~= seq![cs[0], cs[1]]);
    assert(seq![cs[0], cs[1]].push(cs[2]) =~= cs);
}

pub proof fn lemma_apply_4(s: RedisModel, cs: Seq<CommandView>)
    requires
        cs.len() == 4,
    ensures
        apply_commands(s, cs) == apply_command(
            apply_command(apply_command(apply_command(s, cs[0]), cs[1]), cs[2]),
            cs[3],
        ),
{
    let init = seq![cs[0], cs[1], cs[2]];
    lemma_apply_3(s, init);
    lemma_apply_push(s, init, cs[3]);
    assert(init.push(cs[3]) =~= cs);
}

/// What a script answers.
pub enum ScriptReply {
    Nil,
    Text(Seq<char>),
    Int(int),
    /// The script stopped on an unreadable number.
    Error,
}

/// A decimal as Lua's `tonumber` reads the decimals this store writes.
pub open spec fn read_number(t: Seq<char>) -> Option<int> {
    parse_int(t, true, i64::MIN as int, i64::MAX as int)
}

pub open spec fn w_pending_state() -> Seq<char> {
    state_name(JobState::Pending)
}

pub open spec fn w_leased_state() -> Seq<char> {
    state_name(JobState::Leased)
}

/// A hash with a job's lease fields set: leased to `worker` until `exp`,
/// updated at `updated`.
pub open spec fn leased_hash(
    h: Map<Seq<char>, Seq<char>>,
    worker: Seq<char>,
    exp: Seq<char>,
    updated: Seq<char>,
) -> Map<Seq<char>, Seq<char>> {
    h.insert(f_state(), w_leased_state()).insert(f_worker_id(), worker).insert(
        f_lease_expires_at(),
        exp,
    ).insert(f_updated_at(), updated)
}

/// A hash with a job's lease fields cleared and its state back to pending.
pub open spec fn released_hash(h: Map<Seq<char>, Seq<char>>, updated: Seq<char>) -> Map<
    Seq<char>,
    Seq<char>,
> {
    h.insert(f_state(), w_pending_state()).insert(f_worker_id(), Seq::empty()).insert(
        f_lease_expires_at(),
        Seq::empty(),
    ).insert(f_updated_at(), updated)
}

/// What a script run does and answers, as its Lua text (`script_source`)
/// reads. Runs are atomic: no other command comes between their steps.
pub open spec fn run_script(
    s: RedisModel,
    script: Script,
    keys: Seq<Seq<char>>,
    args: Seq<Seq<char>>,
) -> (RedisModel, ScriptReply) {
    match script {
        Script::ClaimNext => {
            let pending = keys[0];
            let leased = keys[1];
            let l = s.list(pending);
            if l.len() == 0 {
                (s, ScriptReply::Nil)
            } else {
                let id = l.last();
                let jk = args[3] + id;
                match read_number(args[1]) {
                    None => (s, ScriptReply::Error),
                    Some(score) => (
                        RedisModel {
                            lists: s.lists.insert(pending, l.drop_last()),
                            hashes: s.hashes.insert(
                                jk,
                                leased_hash(s.hash(jk), args[0], args[1], args[2]),
                            ),
                            zsets: s.zsets.insert(leased, s.zset(leased).insert(id, score as i64)),
                            ..s
                        },
                        ScriptReply::Text(id),
                    ),
                }
            }
        },
        Script::ClaimById => {
            let leased = keys[0];
            let id = args[0];
            let jk = args[4] + id;
            if field(s.hash(jk), f_state()) != Some(w_pending_state()) {
                (s, ScriptReply::Nil)
            } else {
                match read_number(args[2]) {
                    None => (s, ScriptReply::Error),
                    Some(score) => (
                        RedisModel {
                            hashes: s.hashes.insert(
                                jk,
                                leased_hash(s.hash(jk), args[1], args[2], args[3]),
                            ),
                            zsets: s.zsets.insert(leased, s.zset(leased).insert(id, score as i64)),
                            ..s
                        },
                        ScriptReply::Text(id),
                    ),
                }
            }
        },
        Script::RequeueExpired => {
            let leased = keys[0];
            let pending = keys[1];
            let id = args[0];
            let jk = args[1];
            let h = s.hash(jk);
            if field(h, f_state()) != Some(w_leased_state()) {
                (s, ScriptReply::Int(0))
            } else {
                match field(h, f_lease_expires_at()) {
                    None => (s, ScriptReply::Int(0)),
                    Some(exp) => if exp.len() == 0 {
                        (s, ScriptReply::Int(0))
                    } else {
                        match (read_number(exp), read_number(args[2])) {
                            (Some(e), Some(now)) => if e > now {
                                (s, ScriptReply::Int(0))
                            } else {
                                (
                                    RedisModel {
                                        hashes: s.hashes.insert(jk, released_hash(h, args[3])),
                                        zsets: s.zsets.insert(leased, s.zset(leased).remove(id)),
                                        lists: s.lists.insert(pending, s.list(pending).push(id)),
                                        ..s
                                    },
                                    ScriptReply::Int(1),
                                )
                            },
                            _ => (s, ScriptReply::Error),
                        }
                    },
                }
            }
        },
    }
}

/// Field names of `job_fields` differ.
pub proof fn lemma_job_field_names_distinct(j: JobView)
    ensures
        forall|a: int, b: int|
            0 <= a < 15 && 0 <= b < 15 && a != b ==> (#[trigger] job_fields(j)[a]).0
                != (#[trigger] job_fields(j)[b]).0,
{
    let m = job_fields(j);
    assert forall|a: int, b: int| 0 <= a < 15 && 0 <= b < 15 && a != b implies (
    #[trigger] m[a]).0 != (#[trigger] m[b]).0 by {
        if m[a].0.len() == m[b].0.len() {
            assert(m[a].0[0] != m[b].0[0]);
        }
    }
}

/// After `HSET` of fields with distinct names, each name holds its value.
pub proof fn lemma_hset_all_field(
    h: Map<Seq<char>, Seq<char>>,
    fields: Seq<(Seq<char>, Seq<char>)>,
    i: int,
)
    requires
        0 <= i < fields.len(),
        forall|a: int, b: int|
            0 <= a < fields.len() && 0 <= b < fields.len() && a != b ==> (#[trigger] fields[a]).0
                != (#[trigger] fields[b]).0,
    ensures
        field(hset_all(h, fields), fields[i].0) == Some(fields[i].1),
    decreases fields.len(),
{
    if i < fields.len() - 1 {
        let init = fields.drop_last();
        assert forall|a: int, b: int|
            0 <= a < init.len() && 0 <= b < init.len() && a != b implies (#[trigger] init[a]).0
            != (#[trigger] init[b]).0 by {
            assert(init[a] == fields[a]);
            assert(init[b] == fields[b]);
        }
        lemma_hset_all_field(h, init, i);
        assert(init[i] == fields[i]);
        assert(fields[fields.len() - 1].0 != fields[i].0);
    }
}

/// A hash written with all the fields of a job describes that job.
pub proof fn lemma_hset_job_describes(h: Map<Seq<char>, Seq<char>>, j: JobView)
    ensures
        describes(|k: Seq<char>| field(hset_all(h, job_fields(j)), k), j),
{
    let m = job_fields(j);
    lemma_job_field_names_distinct(j);
    assert forall|i: int| 0 <= i < 15 implies field(hset_all(h, m), m[i].0) == Some(m[i].1) by {
        lemma_hset_all_field(h, m, i);
    }
}

/// A stored job reads back as itself: after the enqueue transaction, the
/// job's hash decodes to the job (whatever the hash held before), its id is
/// at the head of its queue's pending list, its queue is registered and its
/// id is in the recent index at its creation instant. (The payload's base64
/// text decoding back to the payload is what `base64_decode` promises.)
pub proof fn lemma_enqueue_then_read(s: RedisModel, ns: Seq<char>, j: JobView, now: i64)
    requires
        storable(j),
        base64_decoding(base64_encoding(j.payload)) == Some(j.payload),
    ensures
        ({
            let t = apply_commands(s, enqueue_atomic(ns, j));
            &&& decode_job_hash(t.hash(job_key(ns, j.id)), now) == Some(j)
            &&& t.list(queue_pending_key(ns, j.queue)) == seq![j.id] + s.list(
                queue_pending_key(ns, j.queue),
            )
            &&& t.set(queue_registry_key(ns)).contains(j.queue)
            &&& t.zset(recent_jobs_key(ns)).contains_key(j.id)
            &&& t.zset(recent_jobs_key(ns))[j.id] == j.created_at
        }),
{
    let cs = enqueue_atomic(ns, j);
    let s1 = apply_command(s, cs[0]);
    let s2 = apply_command(s1, cs[1]);
    let s3 = apply_command(s2, cs[2]);
    let s4 = apply_command(s3, cs[3]);
    lemma_apply_4(s, cs);
    let jk = job_key(ns, j.id);
    assert(s4.hash(jk) == hset_all(s.hash(jk), job_fields(j)));
    lemma_hset_job_describes(s.hash(jk), j);
    lemma_decode_described(j, |k: Seq<char>| field(hset_all(s.hash(jk), job_fields(j)), k), now);
}

/// The field names of a job, pairwise different.
pub proof fn lemma_field_names_differ()
    ensures
        ({
            let n = seq![
                crate::codec::f_id(),
                crate::codec::f_queue(),
                crate::codec::f_name(),
                crate::codec::f_payload(),
                f_state(),
                crate::codec::f_priority(),
                crate::codec::f_attempt(),
                f_worker_id(),
                f_lease_expires_at(),
                crate::codec::f_created_at(),
                f_updated_at(),
                crate::codec::f_failure_reason(),
                crate::codec::f_workflow_run_id(),
                crate::codec::f_activity_id(),
                crate::codec::f_lease_renewals(),
            ];
            forall|a: int, b: int| 0 <= a < 15 && 0 <= b < 15 && a != b ==> #[trigger] n[a] != #[trigger] n[b]
        }),
{
    let j = JobView {
        id: Seq::empty(),
        queue: Seq::empty(),
        name: Seq::empty(),
        payload: Seq::empty(),
        state: JobState::Pending,
        priority: 0,
        attempt: 0,
        worker_id: None,
        lease_expires_at: None,
        created_at: 0,
        updated_at: 0,
        failure_reason: None,
        workflow_run_id: Seq::empty(),
        activity_id: Seq::empty(),
        lease_renewals: 0,
    };
    lemma_job_field_names_distinct(j);
    let m = job_fields(j);
    let n = seq![
        crate::codec::f_id(),
        crate::codec::f_queue(),
        crate::codec::f_name(),
        crate::codec::f_payload(),
        f_state(),
        crate::codec::f_priority(),
        crate::codec::f_attempt(),
        f_worker_id(),
        f_lease_expires_at(),
        crate::codec::f_created_at(),
        f_updated_at(),
        crate::codec::f_failure_reason(),
        crate::codec::f_workflow_run_id(),
        crate::codec::f_activity_id(),
        crate::codec::f_lease_renewals(),
    ];
    assert forall|i: int| 0 <= i < 15 implies #[trigger] n[i] == m[i].0 by {}
}

proof fn lemma_decimal_reads_back(x: i64)
    ensures
        read_number(int_decimal(x as int)) == Some(x as int),
        int_decimal(x as int).len() > 0,
{
    crate::decimal::lemma_parse_int_decimal(x as int, true, i64::MIN as int, i64::MAX as int);
    crate::decimal::lemma_decimal_digits_shape(if x < 0 {
        (-x) as nat
    } else {
        x as nat
    });
}

/// Leasing a stored job to `w` until `e` at instant `u` reads back as that
/// job leased, the other fields untouched.
pub proof fn lemma_decode_leased_hash(
    h: Map<Seq<char>, Seq<char>>,
    w: Seq<char>,
    e: i64,
    u: i64,
    now: i64,
    j: JobView,
)
    requires
        decode_job_hash(h, now) == Some(j),
        w.len() > 0,
        crate::clock::chrono_millis_valid(e),
        crate::clock::chrono_millis_valid(u),
    ensures
        decode_job_hash(leased_hash(h, w, int_decimal(e as int), int_decimal(u as int)), now) == Some(
            JobView {
                state: JobState::Leased,
                worker_id: Some(w),
                lease_expires_at: Some(e),
                updated_at: u,
                ..j
            },
        ),
{
    lemma_field_names_differ();
    lemma_decimal_reads_back(e);
    lemma_decimal_reads_back(u);
    crate::job::lemma_state_name_round_trip(JobState::Leased);
    let h2 = leased_hash(h, w, int_decimal(e as int), int_decimal(u as int));
    assert(field(h2, f_state()) == Some(w_leased_state()));
    assert(field(h2, f_worker_id()) == Some(w));
    assert(field(h2, f_lease_expires_at()) == Some(int_decimal(e as int)));
    assert(field(h2, f_updated_at()) == Some(int_decimal(u as int)));
    let d = decode_job_hash(h2, now);
    assert(d == Some(
        JobView {
            state: JobState::Leased,
            worker_id: Some(w),
            lease_expires_at: Some(e),
            updated_at: u,
            ..j
        },
    ));
}

/// Taking the next job of a queue: the oldest pending id leaves the pending
/// list, enters the leased set at its expiry, and its job reads back leased
/// to the worker.
pub proof fn lemma_claim_next(
    s: RedisModel,
    ns: Seq<char>,
    q: Seq<char>,
    w: Seq<char>,
    e: i64,
    u: i64,
    now: i64,
    j: JobView,
)
    requires
        s.list(queue_pending_key(ns, q)).len() > 0,
        decode_job_hash(s.hash(job_key(ns, s.list(queue_pending_key(ns, q)).last())), now) == Some(j),
        w.len() > 0,
        crate::clock::chrono_millis_valid(e),
        crate::clock::chrono_millis_valid(u),
    ensures
        ({
            let id = s.list(queue_pending_key(ns, q)).last();
            let (t, reply) = run_script(
                s,
                Script::ClaimNext,
                crate::store::claim_next_keys(ns, q),
                crate::store::claim_next_args(ns, w, e, u),
            );
            &&& reply == ScriptReply::Text(id)
            &&& t.list(queue_pending_key(ns, q)) == s.list(queue_pending_key(ns, q)).drop_last()
            &&& t.zset(queue_leased_key(ns, q)).contains_key(id)
            &&& t.zset(queue_leased_key(ns, q))[id] == e
            &&& decode_job_hash(t.hash(job_key(ns, id)), now) == Some(
                JobView {
                    state: JobState::Leased,
                    worker_id: Some(w),
                    lease_expires_at: Some(e),
                    updated_at: u,
                    ..j
                },
            )
        }),
{
    lemma_decimal_reads_back(e);
    let id = s.list(queue_pending_key(ns, q)).last();
    lemma_decode_leased_hash(s.hash(job_key(ns, id)), w, e, u, now, j);
}

/// One winner per job: once a job is leased, claiming it by id again (by any
/// worker) answers nil and changes nothing, whether the first lease came
/// from `ClaimById` or `ClaimNext`.
pub proof fn lemma_one_winner(
    s: RedisModel,
    ns: Seq<char>,
    q: Seq<char>,
    id: Seq<char>,
    w1: Seq<char>,
    e1: i64,
    u1: i64,
    w2: Seq<char>,
    e2: i64,
    u2: i64,
)
    ensures
        ({
            let (s1, r1) = run_script(
                s,
                Script::ClaimById,
                crate::store::claim_by_id_keys(ns, q),
                crate::store::claim_by_id_args(ns, id, w1, e1, u1),
            );
            r1 matches ScriptReply::Text(_) ==> run_script(
                s1,
                Script::ClaimById,
                crate::store::claim_by_id_keys(ns, q),
                crate::store::claim_by_id_args(ns, id, w2, e2, u2),
            ) == (s1, ScriptReply::Nil)
        }),
        ({
            let (s1, r1) = run_script(
                s,
                Script::ClaimNext,
                crate::store::claim_next_keys(ns, q),
                crate::store::claim_next_args(ns, w1, e1, u1),
            );
            r1 == ScriptReply::Text(id) ==> run_script(
                s1,
                Script::ClaimById,
                crate::store::claim_by_id_keys(ns, q),
                crate::store::claim_by_id_args(ns, id, w2, e2, u2),
            ) == (s1, ScriptReply::Nil)
        }),
{
    assert(w_leased_state() != w_pending_state()) by {
        assert(w_leased_state().len() != w_pending_state().len());
    }
}

/// Two claims of the next job of a queue whose pending list holds each id
/// once never take the same job.
pub proof fn lemma_claim_next_distinct(
    s: RedisModel,
    ns: Seq<char>,
    q: Seq<char>,
    w1: Seq<char>,
    e1: i64,
    u1: i64,
    w2: Seq<char>,
    e2: i64,
    u2: i64,
)
    requires
        s.list(queue_pending_key(ns, q)).no_duplicates(),
    ensures
        ({
            let (s1, r1) = run_script(
                s,
                Script::ClaimNext,
                crate::store::claim_next_keys(ns, q),
                crate::store::claim_next_args(ns, w1, e1, u1),
            );
            let (s2, r2) = run_script(
                s1,
                Script::ClaimNext,
                crate::store::claim_next_keys(ns, q),
                crate::store::claim_next_args(ns, w2, e2, u2),
            );
            (r1 is Text && r2 is Text) ==> r1->Text_0 != r2->Text_0
        }),
{
    let l = s.list(queue_pending_key(ns, q));
    lemma_decimal_reads_back(e1);
    lemma_decimal_reads_back(e2);
    if l.len() >= 2 {
        assert(l.drop_last().last() == l[l.len() - 2]);
    }
}

/// Completing a job: its hash reads back completed at `now`, the rest of
/// the job untouched, and it leaves the leased set. A job read back
/// completed is acked again with no writes (`RedisLayout::ack_writes`).
pub proof fn lemma_ack_completes(
    s: RedisModel,
    ns: Seq<char>,
    id: Seq<char>,
    j: JobView,
    now: i64,
    read_at: i64,
)
    requires
        decode_job_hash(s.hash(job_key(ns, id)), read_at) == Some(j),
        crate::clock::chrono_millis_valid(now),
    ensures
        ({
            let t = apply_commands(s, crate::store::ack_atomic(ns, id, j.queue, now));
            &&& decode_job_hash(t.hash(job_key(ns, id)), read_at) == Some(
                JobView { state: JobState::Completed, updated_at: now, ..j },
            )
            &&& !t.zset(queue_leased_key(ns, j.queue)).contains_key(id)
        }),
{
    let cs = crate::store::ack_atomic(ns, id, j.queue, now);
    lemma_apply_3(s, cs);
    lemma_field_names_differ();
    lemma_decimal_reads_back(now);
    crate::job::lemma_state_name_round_trip(JobState::Completed);
    let h = s.hash(job_key(ns, id));
    let t = apply_commands(s, cs);
    let h2 = t.hash(job_key(ns, id));
    assert(h2 == h.insert(f_state(), state_name(JobState::Completed)).insert(
        f_updated_at(),
        int_decimal(now as int),
    ));
    assert(decode_job_hash(h2, read_at) == Some(
        JobView { state: JobState::Completed, updated_at: now, ..j },
    ));
}

/// A lease that ran out sends the job back to its queue: a leased job whose
/// expiry is at or before `now` reads back pending, unleased and updated at
/// `now`, leaves the leased set and goes to the end of the pending list that
/// claims take from: the next claim of its queue takes it, and it can be
/// claimed by id too. A lease that has not run out is left alone.
pub proof fn lemma_expired_lease_requeued(
    s: RedisModel,
    ns: Seq<char>,
    q: Seq<char>,
    id: Seq<char>,
    j: JobView,
    e: i64,
    now: i64,
    read_at: i64,
    w: Seq<char>,
    e2: i64,
    u2: i64,
)
    requires
        decode_job_hash(s.hash(job_key(ns, id)), read_at) == Some(j),
        j.state == JobState::Leased,
        j.lease_expires_at == Some(e),
        crate::clock::chrono_millis_valid(now),
    ensures
        ({
            let (t, reply) = run_script(
                s,
                Script::RequeueExpired,
                crate::store::requeue_keys(ns, q),
                crate::store::requeue_args(ns, id, now),
            );
            if e <= now {
                &&& reply == ScriptReply::Int(1)
                &&& decode_job_hash(t.hash(job_key(ns, id)), read_at) == Some(
                    JobView {
                        state: JobState::Pending,
                        worker_id: None,
                        lease_expires_at: None,
                        updated_at: now,
                        ..j
                    },
                )
                &&& !t.zset(queue_leased_key(ns, q)).contains_key(id)
                &&& t.list(queue_pending_key(ns, q)) == s.list(queue_pending_key(ns, q)).push(id)
                &&& run_script(
                    t,
                    Script::ClaimNext,
                    crate::store::claim_next_keys(ns, q),
                    crate::store::claim_next_args(ns, w, e2, u2),
                ).1 == ScriptReply::Text(id)
                &&& run_script(
                    t,
                    Script::ClaimById,
                    crate::store::claim_by_id_keys(ns, q),
                    crate::store::claim_by_id_args(ns, id, w, e2, u2),
                ).1 == ScriptReply::Text(id)
            } else {
                reply == ScriptReply::Int(0) && t == s
            }
        }),
{
    lemma_field_names_differ();
    lemma_decimal_reads_back(now);
    lemma_decimal_reads_back(e2);
    crate::job::lemma_state_name_round_trip(JobState::Pending);
    crate::job::lemma_state_name_round_trip(JobState::Leased);
    let h = s.hash(job_key(ns, id));
    assert(field(h, f_state()) == Some(w_leased_state())) by {
        let st = field(h, f_state());
        assert(st is Some);
        assert(crate::job::state_from_name(st->0) == Some(JobState::Leased));
    }
    let ft = field(h, f_lease_expires_at());
    assert(ft is Some && ft->0.len() > 0 && read_number(ft->0) == Some(e as int));
    if e <= now {
        let h2 = released_hash(h, int_decimal(now as int));
        assert(field(h2, f_state()) == Some(w_pending_state()));
        assert(decode_job_hash(h2, read_at) == Some(
            JobView {
                state: JobState::Pending,
                worker_id: None,
                lease_expires_at: None,
                updated_at: now,
                ..j
            },
        ));
    }
}

/// Failing a job: its hash reads back failed for `reason` at `now`, the rest
/// of the job untouched, and it leaves the leased set.
pub proof fn lemma_nack_fails(
    s: RedisModel,
    ns: Seq<char>,
    id: Seq<char>,
    j: JobView,
    reason: Seq<char>,
    now: i64,
    read_at: i64,
)
    requires
        decode_job_hash(s.hash(job_key(ns, id)), read_at) == Some(j),
        reason.len() > 0,
        crate::clock::chrono_millis_valid(now),
    ensures
        ({
            let t = apply_commands(s, crate::store::nack_atomic(ns, id, j.queue, reason, now));
            &&& decode_job_hash(t.hash(job_key(ns, id)), read_at) == Some(
                JobView {
                    state: JobState::Failed,
                    failure_reason: Some(reason),
                    updated_at: now,
                    ..j
                },
            )
            &&& !t.zset(queue_leased_key(ns, j.queue)).contains_key(id)
        }),
{
    let cs = crate::store::nack_atomic(ns, id, j.queue, reason, now);
    lemma_apply_4(s, cs);
    lemma_field_names_differ();
    lemma_decimal_reads_back(now);
    crate::job::lemma_state_name_round_trip(JobState::Failed);
    let h = s.hash(job_key(ns, id));
    let t = apply_commands(s, cs);
    let h2 = t.hash(job_key(ns, id));
    assert(h2 == h.insert(f_state(), state_name(JobState::Failed)).insert(
        crate::codec::f_failure_reason(),
        reason,
    ).insert(f_updated_at(), int_decimal(now as int)));
    assert(decode_job_hash(h2, read_at) == Some(
        JobView { state: JobState::Failed, failure_reason: Some(reason), updated_at: now, ..j },
    ));
}

/// Enqueue, dequeue, ack: a job stored on an empty queue is the next one a
/// worker takes, it reads back leased to that worker, and once acked it reads
/// back completed.
pub proof fn lemma_enqueue_dequeue_ack(
    s: RedisModel,
    ns: Seq<char>,
    j: JobView,
    w: Seq<char>,
    e: i64,
    u: i64,
    done_at: i64,
    read_at: i64,
)
    requires
        storable(j),
        base64_decoding(base64_encoding(j.payload)) == Some(j.payload),
        s.list(queue_pending_key(ns, j.queue)).len() == 0,
        w.len() > 0,
        crate::clock::chrono_millis_valid(e),
        crate::clock::chrono_millis_valid(u),
        crate::clock::chrono_millis_valid(done_at),
    ensures
        ({
            let s1 = apply_commands(s, enqueue_atomic(ns, j));
            let (s2, reply) = run_script(
                s1,
                Script::ClaimNext,
                crate::store::claim_next_keys(ns, j.queue),
                crate::store::claim_next_args(ns, w, e, u),
            );
            let leased = JobView {
                state: JobState::Leased,
                worker_id: Some(w),
                lease_expires_at: Some(e),
                updated_at: u,
                ..j
            };
            let s3 = apply_commands(s2, crate::store::ack_atomic(ns, j.id, j.queue, done_at));
            &&& reply == ScriptReply::Text(j.id)
            &&& decode_job_hash(s2.hash(job_key(ns, j.id)), read_at) == Some(leased)
            &&& decode_job_hash(s3.hash(job_key(ns, j.id)), read_at) == Some(
                JobView { state: JobState::Completed, updated_at: done_at, ..leased },
            )
        }),
{
    lemma_enqueue_then_read(s, ns, j, read_at);
    let s1 = apply_commands(s, enqueue_atomic(ns, j));
    let pk = queue_pending_key(ns, j.queue);
    assert(s1.list(pk) =~= seq![j.id]);
    assert(s1.list(pk).last() == j.id);
    lemma_claim_next(s1, ns, j.queue, w, e, u, read_at, j);
    let (s2, reply) = run_script(
        s1,
        Script::ClaimNext,
        crate::store::claim_next_keys(ns, j.queue),
        crate::store::claim_next_args(ns, w, e, u),
    );
    let leased = JobView {
        state: JobState::Leased,
        worker_id: Some(w),
        lease_expires_at: Some(e),
        updated_at: u,
        ..j
    };
    lemma_ack_completes(s2, ns, j.id, leased, done_at, read_at);
}


/// The ids on the pending list of queue `q`.
pub open spec fn pending_ids(s: RedisModel, ns: Seq<char>, q: Seq<char>) -> Seq<Seq<char>> {
    s.list(queue_pending_key(ns, q))
}

/// The hash of job `id`.
pub open spec fn job_hash(s: RedisModel, ns: Seq<char>, id: Seq<char>) -> Map<Seq<char>, Seq<char>> {
    s.hash(job_key(ns, id))
}

/// Whether job `id` reads as a pending job of queue `q`.
pub open spec fn waits_in(s: RedisModel, ns: Seq<char>, q: Seq<char>, id: Seq<char>) -> bool {
    &&& field(job_hash(s, ns, id), f_state()) == Some(w_pending_state())
    &&& field(job_hash(s, ns, id), f_queue()) == Some(q)
}

/// Whether `id` is on no pending list of the namespace.
pub open spec fn unlisted(s: RedisModel, ns: Seq<char>, id: Seq<char>) -> bool {
    forall|q: Seq<char>, i: int|
        0 <= i < pending_ids(s, ns, q).len() ==> #[trigger] pending_ids(s, ns, q)[i] != id
}

/// The pending lists of a namespace are sound: each holds an id at most
/// once, and only ids of jobs that read as pending in that very queue. A
/// leased, completed or failed job is then on no list, and no job is on two.
pub open spec fn pending_lists_sound(s: RedisModel, ns: Seq<char>) -> bool {
    forall|q: Seq<char>|
        {
            &&& (#[trigger] pending_ids(s, ns, q)).no_duplicates()
            &&& forall|i: int|
                0 <= i < pending_ids(s, ns, q).len() ==> waits_in(
                    s,
                    ns,
                    q,
                    #[trigger] pending_ids(s, ns, q)[i],
                )
        }
}

/// Under sound lists, a job that does not read as pending is on no list.
proof fn lemma_not_pending_unlisted(s: RedisModel, ns: Seq<char>, id: Seq<char>)
    requires
        pending_lists_sound(s, ns),
        field(job_hash(s, ns, id), f_state()) != Some(w_pending_state()),
    ensures
        unlisted(s, ns, id),
{
    assert forall|q: Seq<char>, i: int| 0 <= i < pending_ids(s, ns, q).len() implies #[trigger] pending_ids(
        s,
        ns,
        q,
    )[i] != id by {
        assert(waits_in(s, ns, q, pending_ids(s, ns, q)[i]));
    }
}

/// A change that keeps every list, and the hash of every job but `x`, keeps
/// the lists sound when `x` is on no list or keeps its state and queue.
proof fn lemma_sound_one_hash(s: RedisModel, t: RedisModel, ns: Seq<char>, x: Seq<char>)
    requires
        pending_lists_sound(s, ns),
        t.lists == s.lists,
        forall|k: Seq<char>| k != job_key(ns, x) ==> #[trigger] t.hash(k) == s.hash(k),
        unlisted(s, ns, x) || (field(job_hash(t, ns, x), f_state()) == field(
            job_hash(s, ns, x),
            f_state(),
        ) && field(job_hash(t, ns, x), f_queue()) == field(job_hash(s, ns, x), f_queue())),
    ensures
        pending_lists_sound(t, ns),
{
    assert forall|q: Seq<char>| #[trigger] pending_ids(t, ns, q) == pending_ids(s, ns, q) by {}
    assert forall|q: Seq<char>|
        {
            &&& (#[trigger] pending_ids(t, ns, q)).no_duplicates()
            &&& forall|i: int|
                0 <= i < pending_ids(t, ns, q).len() ==> waits_in(
                    t,
                    ns,
                    q,
                    #[trigger] pending_ids(t, ns, q)[i],
                )
        } by {
        assert(pending_ids(t, ns, q) == pending_ids(s, ns, q));
        assert forall|i: int| 0 <= i < pending_ids(t, ns, q).len() implies waits_in(
            t,
            ns,
            q,
            #[trigger] pending_ids(t, ns, q)[i],
        ) by {
            let y = pending_ids(s, ns, q)[i];
            assert(waits_in(s, ns, q, y));
            if y != x {
                if job_key(ns, y) == job_key(ns, x) {
                    crate::keys::lemma_job_key_injective(ns, y, x);
                }
                assert(t.hash(job_key(ns, y)) == s.hash(job_key(ns, y)));
            }
        }
    }
}


/// A change that keeps every hash, and every list but one that is no
/// pending list, keeps the lists sound.
proof fn lemma_sound_other_list(s: RedisModel, t: RedisModel, ns: Seq<char>, key: Seq<char>)
    requires
        pending_lists_sound(s, ns),
        t.hashes == s.hashes,
        forall|q: Seq<char>| queue_pending_key(ns, q) != key,
        forall|k: Seq<char>| k != key ==> #[trigger] t.list(k) == s.list(k),
    ensures
        pending_lists_sound(t, ns),
{
    assert forall|q: Seq<char>| #[trigger] pending_ids(t, ns, q) == pending_ids(s, ns, q) by {
        assert(queue_pending_key(ns, q) != key);
    }
    assert forall|q: Seq<char>|
        {
            &&& (#[trigger] pending_ids(t, ns, q)).no_duplicates()
            &&& forall|i: int|
                0 <= i < pending_ids(t, ns, q).len() ==> waits_in(
                    t,
                    ns,
                    q,
                    #[trigger] pending_ids(t, ns, q)[i],
                )
        } by {
        assert(pending_ids(t, ns, q) == pending_ids(s, ns, q));
        assert forall|i: int| 0 <= i < pending_ids(t, ns, q).len() implies waits_in(
            t,
            ns,
            q,
            #[trigger] pending_ids(t, ns, q)[i],
        ) by {
            assert(waits_in(s, ns, q, pending_ids(s, ns, q)[i]));
        }
    }
}

/// Logging an event keeps the pending lists sound.
pub proof fn lemma_event_keeps_sound(
    s: RedisModel,
    ns: Seq<char>,
    id: Seq<char>,
    now: i64,
    e: crate::store::JobEvent,
)
    requires
        pending_lists_sound(s, ns),
    ensures
        pending_lists_sound(apply_commands(s, crate::store::event_after(ns, id, now, e)), ns),
{
    let cs = crate::store::event_after(ns, id, now, e);
    let t = apply_commands(s, cs);
    lemma_apply_push(s, Seq::<CommandView>::empty(), cs[0]);
    assert(Seq::<CommandView>::empty().push(cs[0]) =~= cs);
    let ek = crate::keys::job_events_key(ns, id);
    assert forall|q: Seq<char>| queue_pending_key(ns, q) != ek by {
        crate::keys::lemma_events_key_not_pending(ns, id, q);
    }
    lemma_sound_other_list(s, t, ns, ek);
}

/// Completing a job that does not read as pending keeps the pending lists
/// sound, its `completed` event included. (The store completes only jobs it
/// read as leased.)
pub proof fn lemma_ack_keeps_sound(s: RedisModel, ns: Seq<char>, id: Seq<char>, queue: Seq<char>, now: i64)
    requires
        pending_lists_sound(s, ns),
        field(job_hash(s, ns, id), f_state()) != Some(w_pending_state()),
    ensures
        pending_lists_sound(
            apply_commands(
                apply_commands(s, crate::store::ack_atomic(ns, id, queue, now)),
                crate::store::event_after(ns, id, now, crate::store::JobEvent::Completed),
            ),
            ns,
        ),
{
    let cs = crate::store::ack_atomic(ns, id, queue, now);
    let t = apply_commands(s, cs);
    lemma_apply_3(s, cs);
    lemma_not_pending_unlisted(s, ns, id);
    assert forall|k: Seq<char>| k != job_key(ns, id) implies #[trigger] t.hash(k) == s.hash(k) by {}
    lemma_sound_one_hash(s, t, ns, id);
    lemma_event_keeps_sound(t, ns, id, now, crate::store::JobEvent::Completed);
}

/// Failing a job that does not read as pending keeps the pending lists
/// sound, its `failed` event included. (The store fails only jobs it read
/// as leased.)
pub proof fn lemma_nack_keeps_sound(
    s: RedisModel,
    ns: Seq<char>,
    id: Seq<char>,
    queue: Seq<char>,
    reason: Seq<char>,
    now: i64,
)
    requires
        pending_lists_sound(s, ns),
        field(job_hash(s, ns, id), f_state()) != Some(w_pending_state()),
    ensures
        pending_lists_sound(
            apply_commands(
                apply_commands(s, crate::store::nack_atomic(ns, id, queue, reason, now)),
                crate::store::event_after(ns, id, now, crate::store::JobEvent::Failed),
            ),
            ns,
        ),
{
    let cs = crate::store::nack_atomic(ns, id, queue, reason, now);
    let t = apply_commands(s, cs);
    lemma_apply_4(s, cs);
    lemma_not_pending_unlisted(s, ns, id);
    assert forall|k: Seq<char>| k != job_key(ns, id) implies #[trigger] t.hash(k) == s.hash(k) by {}
    lemma_sound_one_hash(s, t, ns, id);
    lemma_event_keeps_sound(t, ns, id, now, crate::store::JobEvent::Failed);
}

/// Extending a lease keeps the pending lists sound: it touches neither a
/// job's state nor its queue.
pub proof fn lemma_extend_keeps_sound(
    s: RedisModel,
    ns: Seq<char>,
    id: Seq<char>,
    queue: Seq<char>,
    exp: i64,
    renewals: int,
)
    requires
        pending_lists_sound(s, ns),
    ensures
        pending_lists_sound(
            apply_commands(s, crate::store::extend_atomic(ns, id, queue, exp, renewals)),
            ns,
        ),
{
    let cs = crate::store::extend_atomic(ns, id, queue, exp, renewals);
    let t = apply_commands(s, cs);
    lemma_apply_3(s, cs);
    lemma_field_names_differ();
    assert forall|k: Seq<char>| k != job_key(ns, id) implies #[trigger] t.hash(k) == s.hash(k) by {}
    lemma_sound_one_hash(s, t, ns, id);
}


/// Taking the last id off a pending list, and changing at most that job's
/// hash, keeps the lists sound; the id taken read as pending in that queue
/// and is then on no list.
proof fn lemma_sound_pop(s: RedisModel, t: RedisModel, ns: Seq<char>, q: Seq<char>)
    requires
        pending_lists_sound(s, ns),
        pending_ids(s, ns, q).len() > 0,
        t.lists == s.lists.insert(queue_pending_key(ns, q), pending_ids(s, ns, q).drop_last()),
        forall|k: Seq<char>|
            k != job_key(ns, pending_ids(s, ns, q).last()) ==> #[trigger] t.hash(k) == s.hash(k),
    ensures
        pending_lists_sound(t, ns),
        waits_in(s, ns, q, pending_ids(s, ns, q).last()),
        unlisted(t, ns, pending_ids(s, ns, q).last()),
{
    let l = pending_ids(s, ns, q);
    let id = l.last();
    assert(l[l.len() - 1] == id);
    assert(waits_in(s, ns, q, id));
    // Every other listed job keeps its hash.
    assert forall|q2: Seq<char>, i: int|
        0 <= i < pending_ids(t, ns, q2).len() implies #[trigger] pending_ids(t, ns, q2)[i] != id
        && waits_in(t, ns, q2, pending_ids(t, ns, q2)[i]) by {
        if q2 == q {
            assert(pending_ids(t, ns, q2) == l.drop_last());
            let y = l[i];
            assert(l[i] != l[l.len() - 1]);
            assert(waits_in(s, ns, q, y));
            if job_key(ns, y) == job_key(ns, id) {
                crate::keys::lemma_job_key_injective(ns, y, id);
            }
        } else {
            if queue_pending_key(ns, q2) == queue_pending_key(ns, q) {
                crate::keys::lemma_pending_key_injective(ns, q2, q);
            }
            assert(pending_ids(t, ns, q2) == pending_ids(s, ns, q2));
            let y = pending_ids(s, ns, q2)[i];
            assert(waits_in(s, ns, q2, y));
            assert(y != id);
            if job_key(ns, y) == job_key(ns, id) {
                crate::keys::lemma_job_key_injective(ns, y, id);
            }
        }
    }
    assert forall|q2: Seq<char>| (#[trigger] pending_ids(t, ns, q2)).no_duplicates() by {
        if q2 == q {
            assert(pending_ids(t, ns, q2) == l.drop_last());
            assert(l.no_duplicates());
        } else {
            if queue_pending_key(ns, q2) == queue_pending_key(ns, q) {
                crate::keys::lemma_pending_key_injective(ns, q2, q);
            }
            assert(pending_ids(t, ns, q2) == pending_ids(s, ns, q2));
        }
    }
}

/// Putting an id that is on no list at the head of a pending list keeps the
/// lists sound, when at most that job's hash changes and it then reads as
/// pending in that queue.
proof fn lemma_sound_push(s: RedisModel, t: RedisModel, ns: Seq<char>, q: Seq<char>, id: Seq<char>)
    requires
        pending_lists_sound(s, ns),
        unlisted(s, ns, id),
        t.lists == s.lists.insert(queue_pending_key(ns, q), seq![id] + pending_ids(s, ns, q)),
        forall|k: Seq<char>| k != job_key(ns, id) ==> #[trigger] t.hash(k) == s.hash(k),
        waits_in(t, ns, q, id),
    ensures
        pending_lists_sound(t, ns),
{
    let l = pending_ids(s, ns, q);
    assert forall|q2: Seq<char>, i: int|
        0 <= i < pending_ids(t, ns, q2).len() implies waits_in(
        t,
        ns,
        q2,
        #[trigger] pending_ids(t, ns, q2)[i],
    ) by {
        if q2 == q {
            assert(pending_ids(t, ns, q2) == seq![id] + l);
            if i > 0 {
                let y = l[i - 1];
                assert(pending_ids(t, ns, q2)[i] == y);
                assert(waits_in(s, ns, q, y));
                assert(y != id);
                if job_key(ns, y) == job_key(ns, id) {
                    crate::keys::lemma_job_key_injective(ns, y, id);
                }
            }
        } else {
            if queue_pending_key(ns, q2) == queue_pending_key(ns, q) {
                crate::keys::lemma_pending_key_injective(ns, q2, q);
            }
            assert(pending_ids(t, ns, q2) == pending_ids(s, ns, q2));
            let y = pending_ids(s, ns, q2)[i];
            assert(waits_in(s, ns, q2, y));
            assert(y != id);
            if job_key(ns, y) == job_key(ns, id) {
                crate::keys::lemma_job_key_injective(ns, y, id);
            }
        }
    }
    assert forall|q2: Seq<char>| (#[trigger] pending_ids(t, ns, q2)).no_duplicates() by {
        if q2 == q {
            let m = seq![id] + l;
            assert(pending_ids(t, ns, q2) == m);
            assert(l.no_duplicates());
            assert forall|a: int, b: int| 0 <= a < m.len() && 0 <= b < m.len() && a != b implies m[a]
                != m[b] by {
                if a > 0 && b > 0 {
                    assert(m[a] == l[a - 1] && m[b] == l[b - 1]);
                } else if a == 0 {
                    assert(m[b] == l[b - 1]);
                    assert(l[b - 1] != id);
                } else {
                    assert(m[a] == l[a - 1]);
                    assert(l[a - 1] != id);
                }
            }
        } else {
            if queue_pending_key(ns, q2) == queue_pending_key(ns, q) {
                crate::keys::lemma_pending_key_injective(ns, q2, q);
            }
            assert(pending_ids(t, ns, q2) == pending_ids(s, ns, q2));
        }
    }
}

/// Putting an id that is on no list at the tail of a pending list keeps the
/// lists sound, when at most that job's hash changes and it then reads as
/// pending in that queue.
proof fn lemma_sound_append(s: RedisModel, t: RedisModel, ns: Seq<char>, q: Seq<char>, id: Seq<char>)
    requires
        pending_lists_sound(s, ns),
        unlisted(s, ns, id),
        t.lists == s.lists.insert(queue_pending_key(ns, q), pending_ids(s, ns, q).push(id)),
        forall|k: Seq<char>| k != job_key(ns, id) ==> #[trigger] t.hash(k) == s.hash(k),
        waits_in(t, ns, q, id),
    ensures
        pending_lists_sound(t, ns),
{
    let l = pending_ids(s, ns, q);
    assert forall|q2: Seq<char>, i: int|
        0 <= i < pending_ids(t, ns, q2).len() implies waits_in(
        t,
        ns,
        q2,
        #[trigger] pending_ids(t, ns, q2)[i],
    ) by {
        if q2 == q {
            assert(pending_ids(t, ns, q2) == l.push(id));
            if i < l.len() {
                let y = l[i];
                assert(pending_ids(t, ns, q2)[i] == y);
                assert(waits_in(s, ns, q, y));
                assert(y != id);
                if job_key(ns, y) == job_key(ns, id) {
                    crate::keys::lemma_job_key_injective(ns, y, id);
                }
            }
        } else {
            if queue_pending_key(ns, q2) == queue_pending_key(ns, q) {
                crate::keys::lemma_pending_key_injective(ns, q2, q);
            }
            assert(pending_ids(t, ns, q2) == pending_ids(s, ns, q2));
            let y = pending_ids(s, ns, q2)[i];
            assert(waits_in(s, ns, q2, y));
            assert(y != id);
            if job_key(ns, y) == job_key(ns, id) {
                crate::keys::lemma_job_key_injective(ns, y, id);
            }
        }
    }
    assert forall|q2: Seq<char>| (#[trigger] pending_ids(t, ns, q2)).no_duplicates() by {
        if q2 == q {
            let m = l.push(id);
            assert(pending_ids(t, ns, q2) == m);
            assert(l.no_duplicates());
            assert forall|a: int, b: int| 0 <= a < m.len() && 0 <= b < m.len() && a != b implies m[a]
                != m[b] by {
                if a < l.len() && b < l.len() {
                    assert(m[a] == l[a] && m[b] == l[b]);
                } else if a == l.len() {
                    assert(m[b] == l[b]);
                    assert(l[b] != id);
                } else {
                    assert(m[a] == l[a]);
                    assert(l[a] != id);
                }
            }
        } else {
            if queue_pending_key(ns, q2) == queue_pending_key(ns, q) {
                crate::keys::lemma_pending_key_injective(ns, q2, q);
            }
            assert(pending_ids(t, ns, q2) == pending_ids(s, ns, q2));
        }
    }
}


/// `BRPOP` on a list that holds an id: the last id leaves it.
pub open spec fn pop_last(s: RedisModel, key: Seq<char>) -> RedisModel {
    RedisModel { lists: s.lists.insert(key, s.list(key).drop_last()), ..s }
}

/// Taking the next job of a queue keeps the pending lists sound, and the job
/// it takes read as pending in that queue: a leased, completed or failed job
/// is never taken again while the lists are sound.
pub proof fn lemma_claim_next_keeps_sound(
    s: RedisModel,
    ns: Seq<char>,
    q: Seq<char>,
    w: Seq<char>,
    e: i64,
    u: i64,
)
    requires
        pending_lists_sound(s, ns),
    ensures
        ({
            let (t, reply) = run_script(
                s,
                Script::ClaimNext,
                crate::store::claim_next_keys(ns, q),
                crate::store::claim_next_args(ns, w, e, u),
            );
            &&& pending_lists_sound(t, ns)
            &&& reply matches ScriptReply::Text(id) ==> waits_in(s, ns, q, id) && unlisted(t, ns, id)
        }),
{
    let (t, reply) = run_script(
        s,
        Script::ClaimNext,
        crate::store::claim_next_keys(ns, q),
        crate::store::claim_next_args(ns, w, e, u),
    );
    if pending_ids(s, ns, q).len() > 0 && t != s {
        let id = pending_ids(s, ns, q).last();
        assert(crate::keys::job_prefix_key(ns) + id == job_key(ns, id));
        assert forall|k: Seq<char>| k != job_key(ns, id) implies #[trigger] t.hash(k) == s.hash(k) by {}
        lemma_sound_pop(s, t, ns, q);
    }
}

/// A wait that pops an id off a pending list keeps the lists sound; the id
/// popped read as pending in that queue and is then on no list.
pub proof fn lemma_pop_keeps_sound(s: RedisModel, ns: Seq<char>, q: Seq<char>)
    requires
        pending_lists_sound(s, ns),
        pending_ids(s, ns, q).len() > 0,
    ensures
        pending_lists_sound(pop_last(s, queue_pending_key(ns, q)), ns),
        waits_in(s, ns, q, pending_ids(s, ns, q).last()),
        unlisted(pop_last(s, queue_pending_key(ns, q)), ns, pending_ids(s, ns, q).last()),
{
    let t = pop_last(s, queue_pending_key(ns, q));
    assert forall|k: Seq<char>|
        k != job_key(ns, pending_ids(s, ns, q).last()) implies #[trigger] t.hash(k) == s.hash(k) by {}
    lemma_sound_pop(s, t, ns, q);
}

/// Leasing by id a job that is on no pending list (as one a wait just
/// popped) keeps the lists sound.
pub proof fn lemma_claim_by_id_keeps_sound(
    s: RedisModel,
    ns: Seq<char>,
    q: Seq<char>,
    id: Seq<char>,
    w: Seq<char>,
    e: i64,
    u: i64,
)
    requires
        pending_lists_sound(s, ns),
        unlisted(s, ns, id),
    ensures
        pending_lists_sound(
            run_script(
                s,
                Script::ClaimById,
                crate::store::claim_by_id_keys(ns, q),
                crate::store::claim_by_id_args(ns, id, w, e, u),
            ).0,
            ns,
        ),
{
    let t = run_script(
        s,
        Script::ClaimById,
        crate::store::claim_by_id_keys(ns, q),
        crate::store::claim_by_id_args(ns, id, w, e, u),
    ).0;
    assert(crate::keys::job_prefix_key(ns) + id == job_key(ns, id));
    assert forall|k: Seq<char>| k != job_key(ns, id) implies #[trigger] t.hash(k) == s.hash(k) by {}
    lemma_sound_one_hash(s, t, ns, id);
}

/// Putting a job whose lease ran out back on the pending list of its own
/// queue keeps the lists sound: a leased job is on no list, and it returns
/// to it pending.
pub proof fn lemma_requeue_keeps_sound(s: RedisModel, ns: Seq<char>, q: Seq<char>, id: Seq<char>, now: i64)
    requires
        pending_lists_sound(s, ns),
        field(job_hash(s, ns, id), f_queue()) == Some(q),
    ensures
        pending_lists_sound(
            run_script(
                s,
                Script::RequeueExpired,
                crate::store::requeue_keys(ns, q),
                crate::store::requeue_args(ns, id, now),
            ).0,
            ns,
        ),
{
    let (t, reply) = run_script(
        s,
        Script::RequeueExpired,
        crate::store::requeue_keys(ns, q),
        crate::store::requeue_args(ns, id, now),
    );
    if t != s {
        lemma_field_names_differ();
        assert(w_leased_state() != w_pending_state()) by {
            assert(w_leased_state().len() != w_pending_state().len());
        }
        lemma_not_pending_unlisted(s, ns, id);
        assert forall|k: Seq<char>| k != job_key(ns, id) implies #[trigger] t.hash(k) == s.hash(k) by {}
        assert(waits_in(t, ns, q, id));
        lemma_sound_append(s, t, ns, q, id);
    }
}

/// Storing a new pending job under an id that is on no list keeps the lists
/// sound, its trimming of the recent index and `created` event included.
pub proof fn lemma_enqueue_keeps_sound(
    s: RedisModel,
    ns: Seq<char>,
    j: JobView,
    limit: usize,
    now: i64,
)
    requires
        pending_lists_sound(s, ns),
        unlisted(s, ns, j.id),
        j.state == JobState::Pending,
    ensures
        pending_lists_sound(
            apply_commands(
                apply_commands(s, enqueue_atomic(ns, j)),
                crate::store::enqueue_after(ns, j, limit, now),
            ),
            ns,
        ),
{
    let cs = enqueue_atomic(ns, j);
    let t = apply_commands(s, cs);
    lemma_apply_4(s, cs);
    let jk = job_key(ns, j.id);
    lemma_hset_job_describes(s.hash(jk), j);
    assert(t.hash(jk) == hset_all(s.hash(jk), job_fields(j)));
    assert(field(hset_all(s.hash(jk), job_fields(j)), f_state()) == Some(state_name(j.state)));
    assert(field(hset_all(s.hash(jk), job_fields(j)), f_queue()) == Some(j.queue));
    assert(waits_in(t, ns, j.queue, j.id));
    assert forall|k: Seq<char>| k != jk implies #[trigger] t.hash(k) == s.hash(k) by {}
    lemma_sound_push(s, t, ns, j.queue, j.id);
    let after = crate::store::enqueue_after(ns, j, limit, now);
    let t1 = apply_command(t, after[0]);
    lemma_apply_push(t, Seq::<CommandView>::empty(), after[0]);
    lemma_apply_push(t, seq![after[0]], after[1]);
    assert(Seq::<CommandView>::empty().push(after[0]) =~= seq![after[0]]);
    assert(seq![after[0]].push(after[1]) =~= after);
    assert forall|k: Seq<char>| k != jk implies #[trigger] t1.hash(k) == t.hash(k) by {}
    lemma_sound_one_hash(t, t1, ns, j.id);
    let ek = crate::keys::job_events_key(ns, j.id);
    assert forall|q: Seq<char>| queue_pending_key(ns, q) != ek by {
        crate::keys::lemma_events_key_not_pending(ns, j.id, q);
    }
    lemma_sound_other_list(t1, apply_command(t1, after[1]), ns, ek);
}


/// An empty store has sound pending lists.
pub proof fn lemma_empty_sound(ns: Seq<char>)
    ensures
        pending_lists_sound(
            RedisModel {
                hashes: Map::empty(),
                lists: Map::empty(),
                zsets: Map::empty(),
                sets: Map::empty(),
            },
            ns,
        ),
{
}


/// While its lease holds, no other dequeue takes a job: with sound pending
/// lists, a leased job is on no list, so a claim of the next job of any
/// queue, for any worker, takes another job and leaves the leased job's hash
/// as it was; a wait pops another id; and a claim of it by id answers nil and
/// changes nothing. Those are the steps a dequeue is made of.
pub proof fn lemma_leased_job_not_claimed(
    s: RedisModel,
    ns: Seq<char>,
    id: Seq<char>,
    q: Seq<char>,
    w: Seq<char>,
    e: i64,
    u: i64,
)
    requires
        pending_lists_sound(s, ns),
        field(job_hash(s, ns, id), f_state()) == Some(w_leased_state()),
    ensures
        ({
            let (t, reply) = run_script(
                s,
                Script::ClaimNext,
                crate::store::claim_next_keys(ns, q),
                crate::store::claim_next_args(ns, w, e, u),
            );
            &&& reply != ScriptReply::Text(id)
            &&& job_hash(t, ns, id) == job_hash(s, ns, id)
            &&& pending_lists_sound(t, ns)
        }),
        pending_ids(s, ns, q).len() > 0 ==> pending_ids(s, ns, q).last() != id,
        run_script(
            s,
            Script::ClaimById,
            crate::store::claim_by_id_keys(ns, q),
            crate::store::claim_by_id_args(ns, id, w, e, u),
        ) == (s, ScriptReply::Nil),
{
    assert(w_leased_state() != w_pending_state()) by {
        assert(w_leased_state().len() != w_pending_state().len());
    }
    lemma_not_pending_unlisted(s, ns, id);
    lemma_claim_next_keeps_sound(s, ns, q, w, e, u);
    let (t, reply) = run_script(
        s,
        Script::ClaimNext,
        crate::store::claim_next_keys(ns, q),
        crate::store::claim_next_args(ns, w, e, u),
    );
    if pending_ids(s, ns, q).len() > 0 {
        let l = pending_ids(s, ns, q);
        assert(l[l.len() - 1] == l.last());
        let x = l.last();
        assert(x != id);
        if job_key(ns, x) == job_key(ns, id) {
            crate::keys::lemma_job_key_injective(ns, x, id);
        }
        assert(crate::keys::job_prefix_key(ns) + x == job_key(ns, x));
    }
    assert(crate::keys::job_prefix_key(ns) + id == job_key(ns, id));
}


/// A finite, non-empty sorted set has a member of lowest score.
proof fn lemma_zset_lowest(z: Map<Seq<char>, i64>) -> (m: Seq<char>)
    requires
        z.dom().finite(),
        z.dom().len() > 0,
    ensures
        z.dom().contains(m),
        forall|k: Seq<char>| z.dom().contains(k) ==> z[m] <= #[trigger] z[k],
    decreases z.dom().len(),
{
    let x = z.dom().choose();
    if z.dom().len() == 1 {
        assert forall|k: Seq<char>| z.dom().contains(k) implies z[x] <= #[trigger] z[k] by {
            if k != x {
                assert(z.dom().remove(x).contains(k));
                assert(z.dom().remove(x).len() == 0);
            }
        }
        x
    } else {
        let z2 = z.remove(x);
        assert(z2.dom() =~= z.dom().remove(x));
        let m2 = lemma_zset_lowest(z2);
        if z[x] < z[m2] {
            assert forall|k: Seq<char>| z.dom().contains(k) implies z[x] <= #[trigger] z[k] by {
                if k != x {
                    assert(z2.dom().contains(k));
                    assert(z2[m2] <= z2[k]);
                }
            }
            x
        } else {
            assert forall|k: Seq<char>| z.dom().contains(k) implies z[m2] <= #[trigger] z[k] by {
                if k != x {
                    assert(z2.dom().contains(k));
                    assert(z2[m2] <= z2[k]);
                }
            }
            m2
        }
    }
}

/// Every finite sorted set has its `n` highest-scored members: trimming a
/// finite set keeps exactly those.
pub proof fn lemma_keeps_top_exists(z: Map<Seq<char>, i64>, n: nat)
    requires
        z.dom().finite(),
    ensures
        exists|k: Map<Seq<char>, i64>| #[trigger] keeps_top(z, k, n),
    decreases z.dom().len(),
{
    if z.dom().len() <= n {
        assert(keeps_top(z, z, n));
    } else {
        let m = lemma_zset_lowest(z);
        let z2 = z.remove(m);
        assert(z2.dom() =~= z.dom().remove(m));
        lemma_keeps_top_exists(z2, n);
        let k = choose|k: Map<Seq<char>, i64>| #[trigger] keeps_top(z2, k, n);
        assert forall|a: Seq<char>, b: Seq<char>|
            z.dom().contains(a) && !k.dom().contains(a) && #[trigger] k.dom().contains(b) implies #[trigger] z[a]
            <= z[b] by {
            if a != m {
                assert(z2.dom().contains(a));
                assert(z2[a] <= z2[b]);
            }
        }
        assert(k.submap_of(z)) by {
            assert forall|a: Seq<char>| #[trigger] k.dom().contains(a) implies z.dom().contains(a)
                && k[a] == z[a] by {
                assert(k.dom().contains(a) ==> z2.dom().contains(a) && k[a] == z2[a]);
            }
        }
        assert(z2.dom().len() == z.dom().len() - 1);
        assert(keeps_top(z, k, n));
    }
}

/// `ZREMRANGEBYRANK key 0 -(n + 1)` on a finite sorted set keeps its `n`
/// highest-scored members, with their scores, and drops the rest.
pub proof fn lemma_trim_keeps_top(z: Map<Seq<char>, i64>, stop: i64)
    requires
        z.dom().finite(),
        stop < 0,
    ensures
        keeps_top(z, zset_trimmed(z, 0, stop), (-stop - 1) as nat),
{
    lemma_keeps_top_exists(z, (-stop - 1) as nat);
}


/// Storing a job adds it to the recent index at its creation instant, and
/// the trim that follows leaves the index holding exactly its `limit`
/// highest-scored (newest) entries; nothing goes when it held no more.
pub proof fn lemma_enqueue_trims_recent(s: RedisModel, ns: Seq<char>, j: JobView, limit: usize, now: i64)
    requires
        s.zset(recent_jobs_key(ns)).dom().finite(),
        limit < i64::MAX,
    ensures
        ({
            let rk = recent_jobs_key(ns);
            let t = apply_commands(s, enqueue_atomic(ns, j));
            let u = apply_commands(t, crate::store::enqueue_after(ns, j, limit, now));
            &&& t.zset(rk) == s.zset(rk).insert(j.id, j.created_at)
            &&& keeps_top(t.zset(rk), u.zset(rk), limit as nat)
        }),
{
    let rk = recent_jobs_key(ns);
    let cs = enqueue_atomic(ns, j);
    lemma_apply_4(s, cs);
    let t = apply_commands(s, cs);
    assert(t.zset(rk) == s.zset(rk).insert(j.id, j.created_at));
    let after = crate::store::enqueue_after(ns, j, limit, now);
    lemma_apply_push(t, Seq::<CommandView>::empty(), after[0]);
    lemma_apply_push(t, seq![after[0]], after[1]);
    assert(Seq::<CommandView>::empty().push(after[0]) =~= seq![after[0]]);
    assert(seq![after[0]].push(after[1]) =~= after);
    let stop: i64 = -(limit + 1) as i64;
    assert(stop == -(limit + 1));
    assert((-stop - 1) as nat == limit as nat);
    lemma_trim_keeps_top(t.zset(rk), stop);
    let u = apply_commands(t, after);
    assert(u.zset(rk) == zset_trimmed(t.zset(rk), 0, stop));
}


/// One step of a dequeue against Redis.
pub enum DequeueStep {
    /// `ClaimNext` on queue `q`: lease until `e`, updated at `u`.
    ClaimNext { q: Seq<char>, e: i64, u: i64 },
    /// A wait on queue `q`'s pending list that pops its last id (when it has
    /// one), then `ClaimById` of that id: lease until `e`, updated at `u`.
    PopThenClaim { q: Seq<char>, e: i64, u: i64 },
}

/// A dequeue by worker `w` made of `steps`, run with nothing in between:
/// the store after it, and the ids it leased, in order.
pub open spec fn dequeue_steps(s: RedisModel, ns: Seq<char>, w: Seq<char>, steps: Seq<DequeueStep>) -> (
    RedisModel,
    Seq<Seq<char>>,
)
    decreases steps.len(),
{
    if steps.len() == 0 {
        (s, Seq::empty())
    } else {
        let (s1, ids) = dequeue_steps(s, ns, w, steps.drop_last());
        match steps.last() {
            DequeueStep::ClaimNext { q, e, u } => {
                let (t, r) = run_script(
                    s1,
                    Script::ClaimNext,
                    crate::store::claim_next_keys(ns, q),
                    crate::store::claim_next_args(ns, w, e, u),
                );
                match r {
                    ScriptReply::Text(id) => (t, ids.push(id)),
                    _ => (t, ids),
                }
            },
            DequeueStep::PopThenClaim { q, e, u } => {
                if pending_ids(s1, ns, q).len() == 0 {
                    (s1, ids)
                } else {
                    let id = pending_ids(s1, ns, q).last();
                    let (t, r) = run_script(
                        pop_last(s1, queue_pending_key(ns, q)),
                        Script::ClaimById,
                        crate::store::claim_by_id_keys(ns, q),
                        crate::store::claim_by_id_args(ns, id, w, e, u),
                    );
                    match r {
                        ScriptReply::Text(_) => (t, ids.push(id)),
                        _ => (t, ids),
                    }
                }
            },
        }
    }
}

/// Whether job `id` reads as leased to worker `w`.
pub open spec fn leased_to(s: RedisModel, ns: Seq<char>, id: Seq<char>, w: Seq<char>) -> bool {
    &&& field(job_hash(s, ns, id), f_state()) == Some(w_leased_state())
    &&& field(job_hash(s, ns, id), f_worker_id()) == Some(w)
}

/// What holds part way through a dequeue by `w` from `s`, at `t`, having
/// leased `ids`.
spec fn run_holds(s: RedisModel, t: RedisModel, ns: Seq<char>, w: Seq<char>, ids: Seq<Seq<char>>) -> bool {
    &&& pending_lists_sound(t, ns)
    &&& ids.no_duplicates()
    &&& forall|i: int|
        0 <= i < ids.len() ==> leased_to(t, ns, #[trigger] ids[i], w) && field(
            job_hash(s, ns, ids[i]),
            f_state(),
        ) == Some(w_pending_state())
    &&& forall|y: Seq<char>|
        #![trigger job_hash(s, ns, y)]
        field(job_hash(s, ns, y), f_state()) != Some(w_pending_state()) ==> !ids.contains(y)
            && job_hash(t, ns, y) == job_hash(s, ns, y)
}

proof fn lemma_leased_hash_fields(h: Map<Seq<char>, Seq<char>>, w: Seq<char>, e: Seq<char>, u: Seq<char>)
    ensures
        field(leased_hash(h, w, e, u), f_state()) == Some(w_leased_state()),
        field(leased_hash(h, w, e, u), f_worker_id()) == Some(w),
{
    lemma_field_names_differ();
}

/// One claim of a leased id `x` that read as pending: the run goes on.
proof fn lemma_run_claims(
    s: RedisModel,
    s1: RedisModel,
    t: RedisModel,
    ns: Seq<char>,
    w: Seq<char>,
    ids: Seq<Seq<char>>,
    x: Seq<char>,
)
    requires
        run_holds(s, s1, ns, w, ids),
        pending_lists_sound(t, ns),
        field(job_hash(s1, ns, x), f_state()) == Some(w_pending_state()),
        leased_to(t, ns, x, w),
        forall|k: Seq<char>| k != job_key(ns, x) ==> #[trigger] t.hash(k) == s1.hash(k),
    ensures
        run_holds(s, t, ns, w, ids.push(x)),
{
    assert(w_leased_state() != w_pending_state()) by {
        assert(w_leased_state().len() != w_pending_state().len());
    }
    let ids2 = ids.push(x);
    assert forall|i: int| 0 <= i < ids.len() implies ids[i] != x by {
        assert(leased_to(s1, ns, ids[i], w));
    }
    assert forall|i: int| 0 <= i < ids2.len() implies leased_to(t, ns, #[trigger] ids2[i], w) && field(
        job_hash(s, ns, ids2[i]),
        f_state(),
    ) == Some(w_pending_state()) by {
        if i < ids.len() {
            let y = ids[i];
            assert(leased_to(s1, ns, y, w));
            if job_key(ns, y) == job_key(ns, x) {
                crate::keys::lemma_job_key_injective(ns, y, x);
            }
            assert(t.hash(job_key(ns, y)) == s1.hash(job_key(ns, y)));
        } else {
            assert(ids2[i] == x);
            if field(job_hash(s, ns, x), f_state()) != Some(w_pending_state()) {
                assert(job_hash(s1, ns, x) == job_hash(s, ns, x));
            }
        }
    }
    assert forall|y: Seq<char>|
        #![trigger job_hash(s, ns, y)]
        field(job_hash(s, ns, y), f_state()) != Some(w_pending_state()) implies !ids2.contains(y)
        && job_hash(t, ns, y) == job_hash(s, ns, y) by {
        assert(job_hash(s1, ns, y) == job_hash(s, ns, y));
        assert(y != x);
        if job_key(ns, y) == job_key(ns, x) {
            crate::keys::lemma_job_key_injective(ns, y, x);
        }
        assert(t.hash(job_key(ns, y)) == s1.hash(job_key(ns, y)));
        if ids2.contains(y) {
            let k = choose|k: int| 0 <= k < ids2.len() && ids2[k] == y;
            if k < ids.len() {
                assert(ids.contains(y));
            }
        }
    }
    assert forall|a: int, b: int| 0 <= a < ids2.len() && 0 <= b < ids2.len() && a != b implies ids2[a]
        != ids2[b] by {
        if a < ids.len() && b < ids.len() {
            assert(ids[a] != ids[b]);
        }
    }
}

/// A whole dequeue by worker `w`: every id it leases is distinct, read as
/// pending before, and reads as leased to `w` after; every job that did not
/// read as pending before (leased to another worker, completed or failed) is
/// not among them and its hash is untouched; and the pending lists stay
/// sound. So while a job's lease holds, no other worker's dequeue takes it.
pub proof fn lemma_dequeue_run(s: RedisModel, ns: Seq<char>, w: Seq<char>, steps: Seq<DequeueStep>)
    requires
        pending_lists_sound(s, ns),
    ensures
        ({
            let (t, ids) = dequeue_steps(s, ns, w, steps);
            &&& pending_lists_sound(t, ns)
            &&& ids.no_duplicates()
            &&& forall|i: int|
                0 <= i < ids.len() ==> leased_to(t, ns, #[trigger] ids[i], w) && field(
                    job_hash(s, ns, ids[i]),
                    f_state(),
                ) == Some(w_pending_state())
            &&& forall|y: Seq<char>|
                #![trigger job_hash(s, ns, y)]
                field(job_hash(s, ns, y), f_state()) != Some(w_pending_state()) ==> !ids.contains(y)
                    && job_hash(t, ns, y) == job_hash(s, ns, y)
        }),
{
    lemma_dequeue_run_holds(s, ns, w, steps);
}

proof fn lemma_dequeue_run_holds(s: RedisModel, ns: Seq<char>, w: Seq<char>, steps: Seq<DequeueStep>)
    requires
        pending_lists_sound(s, ns),
    ensures
        ({
            let (t, ids) = dequeue_steps(s, ns, w, steps);
            run_holds(s, t, ns, w, ids)
        }),
    decreases steps.len(),
{
    if steps.len() == 0 {
        assert(run_holds(s, s, ns, w, Seq::<Seq<char>>::empty()));
    } else {
        lemma_dequeue_run_holds(s, ns, w, steps.drop_last());
        let (s1, ids) = dequeue_steps(s, ns, w, steps.drop_last());
        match steps.last() {
            DequeueStep::ClaimNext { q, e, u } => {
                lemma_claim_next_keeps_sound(s1, ns, q, w, e, u);
                let (t, r) = run_script(
                    s1,
                    Script::ClaimNext,
                    crate::store::claim_next_keys(ns, q),
                    crate::store::claim_next_args(ns, w, e, u),
                );
                if let ScriptReply::Text(x) = r {
                    let l = pending_ids(s1, ns, q);
                    assert(x == l.last());
                    assert(crate::keys::job_prefix_key(ns) + x == job_key(ns, x));
                    lemma_leased_hash_fields(
                        s1.hash(job_key(ns, x)),
                        w,
                        int_decimal(e as int),
                        int_decimal(u as int),
                    );
                    assert forall|k: Seq<char>| k != job_key(ns, x) implies #[trigger] t.hash(k)
                        == s1.hash(k) by {}
                    lemma_run_claims(s, s1, t, ns, w, ids, x);
                }
            },
            DequeueStep::PopThenClaim { q, e, u } => {
                if pending_ids(s1, ns, q).len() > 0 {
                    let x = pending_ids(s1, ns, q).last();
                    let s2 = pop_last(s1, queue_pending_key(ns, q));
                    lemma_pop_keeps_sound(s1, ns, q);
                    lemma_claim_by_id_keeps_sound(s2, ns, q, x, w, e, u);
                    let (t, r) = run_script(
                        s2,
                        Script::ClaimById,
                        crate::store::claim_by_id_keys(ns, q),
                        crate::store::claim_by_id_args(ns, x, w, e, u),
                    );
                    assert(s2.hashes == s1.hashes);
                    assert(crate::keys::job_prefix_key(ns) + x == job_key(ns, x));
                    if let ScriptReply::Text(_) = r {
                        lemma_leased_hash_fields(
                            s2.hash(job_key(ns, x)),
                            w,
                            int_decimal(e as int),
                            int_decimal(u as int),
                        );
                        assert forall|k: Seq<char>| k != job_key(ns, x) implies #[trigger] t.hash(k)
                            == s1.hash(k) by {}
                        lemma_run_claims(s, s1, t, ns, w, ids, x);
                    } else {
                        assert(t == s2);
                        // The pop alone: the lists shrink, no hash changes.
                        assert forall|y: Seq<char>|
                            #![trigger job_hash(s, ns, y)]
                            field(job_hash(s, ns, y), f_state()) != Some(w_pending_state()) implies !ids.contains(y)
                            && job_hash(t, ns, y) == job_hash(s, ns, y) by {
                            assert(job_hash(s1, ns, y) == job_hash(s, ns, y));
                        }
                        assert forall|i: int| 0 <= i < ids.len() implies leased_to(
                            t,
                            ns,
                            #[trigger] ids[i],
                            w,
                        ) && field(job_hash(s, ns, ids[i]), f_state()) == Some(w_pending_state()) by {
                            assert(leased_to(s1, ns, ids[i], w));
                        }
                    }
                }
            },
        }
    }
}

} // verus!
