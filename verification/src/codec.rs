//! A job as the flat list of text fields it is stored under, and back.
use vstd::prelude::*;
use base64::Engine;
use crate::clock::{chrono_millis_valid, millis_valid};
use crate::decimal::{
    i64_to_string, int_decimal, lemma_parse_int_decimal, parse_i32, parse_i64, parse_int,
    parse_u32, u64_to_string,
};
use crate::job::{
    opt_chars, state_from_name, state_name, lemma_state_name_round_trip, Job, JobState, JobView,
};
use crate::text::str_equals;

verus! {

/// What `base64::engine::general_purpose::STANDARD.encode` makes of `data`.
pub uninterp spec fn base64_encoding(data: Seq<u8>) -> Seq<char>;

/// What `base64::engine::general_purpose::STANDARD.decode` makes of `text`,
/// with a decoding error as `None`.
pub uninterp spec fn base64_decoding(text: Seq<char>) -> Option<Seq<u8>>;

/// `STANDARD.encode(data)`: the padded standard base64 text of `data`, four
/// characters for every started group of three bytes. The crate panics when
/// that length overflows `usize`.
#[verifier::external_body]
fn base64_encode(data: &[u8]) -> (r: String)
    requires
        (data@.len() + 2) / 3 * 4 <= usize::MAX,
    ensures
        r@ == base64_encoding(data@),
        r@.len() == (data@.len() + 2) / 3 * 4,
{
    base64::engine::general_purpose::STANDARD.encode(data)
}

/// `STANDARD.decode(text)`, with the error as `None`. Decoding the text that
/// `STANDARD.encode` made of some bytes gives those bytes back.
#[verifier::external_body]
fn base64_decode(text: &str) -> (r: Option<Vec<u8>>)
    ensures
        r matches Some(v) ==> base64_decoding(text@) == Some(v@),
        r is None ==> base64_decoding(text@) is None,
        forall|d: Seq<u8>|
            text@ == #[trigger] base64_encoding(d) ==> r is Some && r->0@ == d,
{
    base64::engine::general_purpose::STANDARD.decode(text).ok()
}

pub open spec fn f_id() -> Seq<char> {
    seq!['i', 'd']
}

pub open spec fn f_queue() -> Seq<char> {
    seq!['q', 'u', 'e', 'u', 'e']
}

pub open spec fn f_name() -> Seq<char> {
    seq!['n', 'a', 'm', 'e']
}

pub open spec fn f_payload() -> Seq<char> {
    seq!['p', 'a', 'y', 'l', 'o', 'a', 'd']
}

pub open spec fn f_state() -> Seq<char> {
    seq!['s', 't', 'a', 't', 'e']
}

pub open spec fn f_priority() -> Seq<char> {
    seq!['p', 'r', 'i', 'o', 'r', 'i', 't', 'y']
}

pub open spec fn f_attempt() -> Seq<char> {
    seq!['a', 't', 't', 'e', 'm', 'p', 't']
}

pub open spec fn f_worker_id() -> Seq<char> {
    seq!['w', 'o', 'r', 'k', 'e', 'r', '_', 'i', 'd']
}

pub open spec fn f_lease_expires_at() -> Seq<char> {
    seq!['l', 'e', 'a', 's', 'e', '_', 'e', 'x', 'p', 'i', 'r', 'e', 's', '_', 'a', 't']
}

pub open spec fn f_created_at() -> Seq<char> {
    seq!['c', 'r', 'e', 'a', 't', 'e', 'd', '_', 'a', 't']
}

pub open spec fn f_updated_at() -> Seq<char> {
    seq!['u', 'p', 'd', 'a', 't', 'e', 'd', '_', 'a', 't']
}

pub open spec fn f_failure_reason() -> Seq<char> {
    seq!['f', 'a', 'i', 'l', 'u', 'r', 'e', '_', 'r', 'e', 'a', 's', 'o', 'n']
}

pub open spec fn f_workflow_run_id() -> Seq<char> {
    seq!['w', 'o', 'r', 'k', 'f', 'l', 'o', 'w', '_', 'r', 'u', 'n', '_', 'i', 'd']
}

pub open spec fn f_activity_id() -> Seq<char> {
    seq!['a', 'c', 't', 'i', 'v', 'i', 't', 'y', '_', 'i', 'd']
}

pub open spec fn f_lease_renewals() -> Seq<char> {
    seq!['l', 'e', 'a', 's', 'e', '_', 'r', 'e', 'n', 'e', 'w', 'a', 'l', 's']
}

pub open spec fn text_or_empty(o: Option<Seq<char>>) -> Seq<char> {
    match o {
        Some(t) => t,
        None => Seq::<char>::empty(),
    }
}

pub open spec fn instant_text(o: Option<i64>) -> Seq<char> {
    match o {
        Some(ms) => int_decimal(ms as int),
        None => Seq::<char>::empty(),
    }
}

/// The stored fields of a job, in the order they are written.
pub open spec fn job_fields(j: JobView) -> Seq<(Seq<char>, Seq<char>)> {
    seq![
        (f_id(), j.id),
        (f_queue(), j.queue),
        (f_name(), j.name),
        (f_payload(), base64_encoding(j.payload)),
        (f_state(), state_name(j.state)),
        (f_priority(), int_decimal(j.priority as int)),
        (f_attempt(), int_decimal(j.attempt as int)),
        (f_worker_id(), text_or_empty(j.worker_id)),
        (f_lease_expires_at(), instant_text(j.lease_expires_at)),
        (f_created_at(), int_decimal(j.created_at as int)),
        (f_updated_at(), int_decimal(j.updated_at as int)),
        (f_failure_reason(), text_or_empty(j.failure_reason)),
        (f_workflow_run_id(), j.workflow_run_id),
        (f_activity_id(), j.activity_id),
        (f_lease_renewals(), int_decimal(j.lease_renewals as int)),
    ]
}

pub open spec fn pairs_view(v: Seq<(String, String)>) -> Seq<(Seq<char>, Seq<char>)> {
    v.map_values(|p: (String, String)| (p.0@, p.1@))
}

/// The value of the first field named `k`.
pub open spec fn lookup(m: Seq<(Seq<char>, Seq<char>)>, k: Seq<char>) -> Option<Seq<char>>
    decreases m.len(),
{
    if m.len() == 0 {
        None
    } else if m[0].0 == k {
        Some(m[0].1)
    } else {
        lookup(m.drop_first(), k)
    }
}

/// `Some` of a non-empty text; `None` of a missing or empty one.
pub open spec fn nonempty(o: Option<Seq<char>>) -> Option<Seq<char>> {
    match o {
        Some(t) => if t.len() > 0 {
            Some(t)
        } else {
            None
        },
        None => None,
    }
}

/// An instant read from a field: decimal milliseconds that chrono accepts.
pub open spec fn parse_instant(o: Option<Seq<char>>) -> Option<i64> {
    match o {
        Some(t) => match parse_int(t, true, i64::MIN as int, i64::MAX as int) {
            Some(v) => if chrono_millis_valid(v as i64) {
                Some(v as i64)
            } else {
                None
            },
            None => None,
        },
        None => None,
    }
}

pub open spec fn parse_i32_or(t: Seq<char>, d: i32) -> i32 {
    match parse_int(t, true, i32::MIN as int, i32::MAX as int) {
        Some(v) => v as i32,
        None => d,
    }
}

pub open spec fn parse_u32_or(t: Seq<char>, d: u32) -> u32 {
    match parse_int(t, false, 0, u32::MAX as int) {
        Some(v) => v as u32,
        None => d,
    }
}

pub open spec fn instant_or(o: Option<i64>, d: i64) -> i64 {
    match o {
        Some(v) => v,
        None => d,
    }
}

/// A job read back from its stored fields, `get` giving the value of a
/// field by name. The id, queue, name, state, priority and attempt fields
/// must be present and the state a known name; a missing or unreadable
/// instant of creation or update reads as `now`.
pub open spec fn decode_job(get: spec_fn(Seq<char>) -> Option<Seq<char>>, now: i64) -> Option<
    JobView,
> {
    let id = get(f_id());
    let queue = get(f_queue());
    let name = get(f_name());
    let state = get(f_state());
    let priority = get(f_priority());
    let attempt = get(f_attempt());
    if id is None || queue is None || name is None || state is None || priority is None
        || attempt is None {
        None
    } else {
        match state_from_name(state->0) {
            None => None,
            Some(st) => Some(
                JobView {
                    id: id->0,
                    queue: queue->0,
                    name: name->0,
                    payload: match base64_decoding(text_or_empty(get(f_payload()))) {
                        Some(d) => d,
                        None => Seq::<u8>::empty(),
                    },
                    state: st,
                    priority: parse_i32_or(priority->0, 0),
                    attempt: parse_u32_or(attempt->0, 1),
                    worker_id: nonempty(get(f_worker_id())),
                    lease_expires_at: parse_instant(nonempty(get(f_lease_expires_at()))),
                    created_at: instant_or(parse_instant(get(f_created_at())), now),
                    updated_at: instant_or(parse_instant(get(f_updated_at())), now),
                    failure_reason: nonempty(get(f_failure_reason())),
                    workflow_run_id: text_or_empty(get(f_workflow_run_id())),
                    activity_id: text_or_empty(get(f_activity_id())),
                    lease_renewals: match get(f_lease_renewals()) {
                        Some(t) => parse_u32_or(t, 0),
                        None => 0,
                    },
                },
            ),
        }
    }
}

/// A job read back from a list of fields (the first of a name counts).
pub open spec fn decode_job_fields(m: Seq<(Seq<char>, Seq<char>)>, now: i64) -> Option<JobView> {
    decode_job(|k: Seq<char>| lookup(m, k), now)
}

/// Whether `get` gives, under each field name, what `job_fields(j)` holds.
pub open spec fn describes(get: spec_fn(Seq<char>) -> Option<Seq<char>>, j: JobView) -> bool {
    &&& get(f_id()) == Some(j.id)
    &&& get(f_queue()) == Some(j.queue)
    &&& get(f_name()) == Some(j.name)
    &&& get(f_payload()) == Some(base64_encoding(j.payload))
    &&& get(f_state()) == Some(state_name(j.state))
    &&& get(f_priority()) == Some(int_decimal(j.priority as int))
    &&& get(f_attempt()) == Some(int_decimal(j.attempt as int))
    &&& get(f_worker_id()) == Some(text_or_empty(j.worker_id))
    &&& get(f_lease_expires_at()) == Some(instant_text(j.lease_expires_at))
    &&& get(f_created_at()) == Some(int_decimal(j.created_at as int))
    &&& get(f_updated_at()) == Some(int_decimal(j.updated_at as int))
    &&& get(f_failure_reason()) == Some(text_or_empty(j.failure_reason))
    &&& get(f_workflow_run_id()) == Some(j.workflow_run_id)
    &&& get(f_activity_id()) == Some(j.activity_id)
    &&& get(f_lease_renewals()) == Some(int_decimal(j.lease_renewals as int))
}

/// A job that its stored fields describe exactly: no present-but-empty worker
/// or failure reason (an empty field reads as absent), and instants chrono
/// can represent.
pub open spec fn storable(j: JobView) -> bool {
    &&& (j.worker_id matches Some(w) ==> w.len() > 0)
    &&& (j.failure_reason matches Some(f) ==> f.len() > 0)
    &&& (j.lease_expires_at matches Some(ms) ==> chrono_millis_valid(ms))
    &&& chrono_millis_valid(j.created_at)
    &&& chrono_millis_valid(j.updated_at)
}

pub proof fn lemma_field_name_literals()
    ensures
        "id"@ == f_id(),
        "queue"@ == f_queue(),
        "name"@ == f_name(),
        "payload"@ == f_payload(),
        "state"@ == f_state(),
        "priority"@ == f_priority(),
        "attempt"@ == f_attempt(),
        "worker_id"@ == f_worker_id(),
        "lease_expires_at"@ == f_lease_expires_at(),
        "created_at"@ == f_created_at(),
        "updated_at"@ == f_updated_at(),
        "failure_reason"@ == f_failure_reason(),
        "workflow_run_id"@ == f_workflow_run_id(),
        "activity_id"@ == f_activity_id(),
        "lease_renewals"@ == f_lease_renewals(),
{
    reveal_strlit("id");
    reveal_strlit("queue");
    reveal_strlit("name");
    reveal_strlit("payload");
    reveal_strlit("state");
    reveal_strlit("priority");
    reveal_strlit("attempt");
    reveal_strlit("worker_id");
    reveal_strlit("lease_expires_at");
    reveal_strlit("created_at");
    reveal_strlit("updated_at");
    reveal_strlit("failure_reason");
    reveal_strlit("workflow_run_id");
    reveal_strlit("activity_id");
    reveal_strlit("lease_renewals");
    assert("id"@ =~= f_id());
    assert("queue"@ =~= f_queue());
    assert("name"@ =~= f_name());
    assert("payload"@ =~= f_payload());
    assert("state"@ =~= f_state());
    assert("priority"@ =~= f_priority());
    assert("attempt"@ =~= f_attempt());
    assert("worker_id"@ =~= f_worker_id());
    assert("lease_expires_at"@ =~= f_lease_expires_at());
    assert("created_at"@ =~= f_created_at());
    assert("updated_at"@ =~= f_updated_at());
    assert("failure_reason"@ =~= f_failure_reason());
    assert("workflow_run_id"@ =~= f_workflow_run_id());
    assert("activity_id"@ =~= f_activity_id());
    assert("lease_renewals"@ =~= f_lease_renewals());
}

/// The string with the characters of `s`.
pub(crate) fn text(s: &str) -> (r: String)
    ensures
        r@ == s@,
{
    String::from_str(s)
}

fn opt_text(o: &Option<String>) -> (r: String)
    ensures
        r@ == text_or_empty(opt_chars(*o)),
{
    match o {
        Some(s) => s.clone(),
        None => String::new(),
    }
}

/// The fields a job is stored under.
pub fn job_to_hash(job: &Job) -> (r: Vec<(String, String)>)
    requires
        (job.payload@.len() + 2) / 3 * 4 <= usize::MAX,
    ensures
        pairs_view(r@) == job_fields(job@),
{
    proof {
        lemma_field_name_literals();
    }
    let lease = match job.lease_expires_at {
        Some(ms) => i64_to_string(ms),
        None => String::new(),
    };
    let mut v: Vec<(String, String)> = Vec::new();
    v.push((text("id"), job.id.clone()));
    v.push((text("queue"), job.queue.clone()));
    v.push((text("name"), job.name.clone()));
    v.push((text("payload"), base64_encode(job.payload.as_slice())));
    v.push((text("state"), text(job.state.as_str())));
    v.push((text("priority"), i64_to_string(job.priority as i64)));
    v.push((text("attempt"), u64_to_string(job.attempt as u64)));
    v.push((text("worker_id"), opt_text(&job.worker_id)));
    v.push((text("lease_expires_at"), lease));
    v.push((text("created_at"), i64_to_string(job.created_at)));
    v.push((text("updated_at"), i64_to_string(job.updated_at)));
    v.push((text("failure_reason"), opt_text(&job.failure_reason)));
    v.push((text("workflow_run_id"), job.workflow_run_id.clone()));
    v.push((text("activity_id"), job.activity_id.clone()));
    v.push((text("lease_renewals"), u64_to_string(job.lease_renewals as u64)));
    let ghost pv = pairs_view(v@);
    let ghost jf = job_fields(job@);
    assert(pv.len() == jf.len());
    assert forall|i: int| 0 <= i < 15 implies #[trigger] pv[i] == jf[i] by {
        assert(pv[i] == (v@[i].0@, v@[i].1@));
    }
    assert(pv =~= jf);
    v
}

proof fn lemma_lookup_skip(m: Seq<(Seq<char>, Seq<char>)>, k: Seq<char>, i: int)
    requires
        0 <= i <= m.len(),
        forall|j: int| 0 <= j < i ==> (#[trigger] m[j]).0 != k,
    ensures
        lookup(m, k) == lookup(m.skip(i), k),
    decreases i,
{
    if i > 0 {
        assert(m[0].0 != k);
        assert(m.drop_first().skip(i - 1) =~= m.skip(i));
        assert forall|j: int| 0 <= j < i - 1 implies (#[trigger] m.drop_first()[j]).0 != k by {
            assert(m.drop_first()[j] == m[j + 1]);
        }
        lemma_lookup_skip(m.drop_first(), k, i - 1);
    } else {
        assert(m.skip(0) =~= m);
    }
}

/// The value of the first field named `key`.
pub fn field_value(fields: &Vec<(String, String)>, key: &str) -> (r: Option<String>)
    ensures
        opt_chars(r) == lookup(pairs_view(fields@), key@),
{
    let ghost m = pairs_view(fields@);
    let mut i: usize = 0;
    while i < fields.len()
        invariant
            i <= fields@.len(),
            m == pairs_view(fields@),
            forall|j: int| 0 <= j < i ==> (#[trigger] m[j]).0 != key@,
        decreases fields@.len() - i,
    {
        if str_equals(fields[i].0.as_str(), key) {
            proof {
                lemma_lookup_skip(m, key@, i as int);
                assert(m.skip(i as int)[0] == m[i as int]);
            }
            return Some(fields[i].1.clone());
        }
        i = i + 1;
    }
    proof {
        lemma_lookup_skip(m, key@, i as int);
        assert(m.skip(i as int).len() == 0);
    }
    None
}

fn nonempty_text(o: Option<String>) -> (r: Option<String>)
    ensures
        opt_chars(r) == nonempty(opt_chars(o)),
{
    match o {
        Some(t) => if !t.as_str().is_empty() {
            Some(t)
        } else {
            None
        },
        None => None,
    }
}

fn read_instant(o: Option<String>) -> (r: Option<i64>)
    ensures
        r == parse_instant(opt_chars(o)),
{
    match o {
        Some(t) => match parse_i64(t.as_str()) {
            Some(v) => if millis_valid(v) {
                Some(v)
            } else {
                None
            },
            None => None,
        },
        None => None,
    }
}

/// A job read back from the fields it is stored under, `None` where they do
/// not describe one; `now` stands in for a missing instant of creation or
/// update. Fields written for a storable job read back as that job.
pub fn hash_to_job(fields: &Vec<(String, String)>, now: i64) -> (r: Option<Job>)
    ensures
        match r {
            Some(j) => decode_job_fields(pairs_view(fields@), now) == Some(j@),
            None => decode_job_fields(pairs_view(fields@), now) is None,
        },
        forall|j: JobView|
            storable(j) && pairs_view(fields@) == #[trigger] job_fields(j) ==> (r matches Some(x)
                && x@ == j),
{
    let ghost m = pairs_view(fields@);
    proof {
        lemma_field_name_literals();
    }
    let payload_text = match field_value(fields, "payload") {
        Some(t) => t,
        None => String::new(),
    };
    let payload = match base64_decode(payload_text.as_str()) {
        Some(d) => d,
        None => Vec::new(),
    };
    proof {
        assert forall|j: JobView| storable(j) && m == #[trigger] job_fields(j) implies
            decode_job_fields(m, now) == Some(j) && payload@ == j.payload by {
            lemma_job_fields_lookup(j);
            lemma_decode_described(j, |k: Seq<char>| lookup(job_fields(j), k), now);
        }
    }
    let id = field_value(fields, "id");
    let queue = field_value(fields, "queue");
    let name = field_value(fields, "name");
    let state_text = field_value(fields, "state");
    let priority_text = field_value(fields, "priority");
    let attempt_text = field_value(fields, "attempt");
    let (id, queue, name, state_text, priority_text, attempt_text) = match (
        id,
        queue,
        name,
        state_text,
        priority_text,
        attempt_text,
    ) {
        (Some(a), Some(b), Some(c), Some(d), Some(e), Some(f)) => (a, b, c, d, e, f),
        _ => {
            return None;
        },
    };
    let state = match JobState::from_str(state_text.as_str()) {
        Some(s) => s,
        None => {
            return None;
        },
    };
    let priority = match parse_i32(priority_text.as_str()) {
        Some(v) => v,
        None => 0,
    };
    let attempt = match parse_u32(attempt_text.as_str()) {
        Some(v) => v,
        None => 1,
    };
    let worker_id = nonempty_text(field_value(fields, "worker_id"));
    let lease_expires_at = read_instant(nonempty_text(field_value(fields, "lease_expires_at")));
    let created_at = match read_instant(field_value(fields, "created_at")) {
        Some(v) => v,
        None => now,
    };
    let updated_at = match read_instant(field_value(fields, "updated_at")) {
        Some(v) => v,
        None => now,
    };
    let failure_reason = nonempty_text(field_value(fields, "failure_reason"));
    let workflow_run_id = match field_value(fields, "workflow_run_id") {
        Some(t) => t,
        None => String::new(),
    };
    let activity_id = match field_value(fields, "activity_id") {
        Some(t) => t,
        None => String::new(),
    };
    let lease_renewals = match field_value(fields, "lease_renewals") {
        Some(t) => match parse_u32(t.as_str()) {
            Some(v) => v,
            None => 0,
        },
        None => 0,
    };
    let job = Job {
        id,
        queue,
        name,
        payload,
        state,
        priority,
        attempt,
        worker_id,
        lease_expires_at,
        created_at,
        updated_at,
        failure_reason,
        workflow_run_id,
        activity_id,
        lease_renewals,
    };
    assert(decode_job_fields(m, now) == Some(job@));
    Some(job)
}

/// Each field of `job_fields` is found under its own name.
pub proof fn lemma_job_fields_lookup(j: JobView)
    ensures
        describes(|k: Seq<char>| lookup(job_fields(j), k), j),
        lookup(job_fields(j), f_id()) == Some(j.id),
        lookup(job_fields(j), f_queue()) == Some(j.queue),
        lookup(job_fields(j), f_name()) == Some(j.name),
        lookup(job_fields(j), f_payload()) == Some(base64_encoding(j.payload)),
        lookup(job_fields(j), f_state()) == Some(state_name(j.state)),
        lookup(job_fields(j), f_priority()) == Some(int_decimal(j.priority as int)),
        lookup(job_fields(j), f_attempt()) == Some(int_decimal(j.attempt as int)),
        lookup(job_fields(j), f_worker_id()) == Some(text_or_empty(j.worker_id)),
        lookup(job_fields(j), f_lease_expires_at()) == Some(instant_text(j.lease_expires_at)),
        lookup(job_fields(j), f_created_at()) == Some(int_decimal(j.created_at as int)),
        lookup(job_fields(j), f_updated_at()) == Some(int_decimal(j.updated_at as int)),
        lookup(job_fields(j), f_failure_reason()) == Some(text_or_empty(j.failure_reason)),
        lookup(job_fields(j), f_workflow_run_id()) == Some(j.workflow_run_id),
        lookup(job_fields(j), f_activity_id()) == Some(j.activity_id),
        lookup(job_fields(j), f_lease_renewals()) == Some(int_decimal(j.lease_renewals as int)),
{
    let m = job_fields(j);
    let names = seq![
        f_id(),
        f_queue(),
        f_name(),
        f_payload(),
        f_state(),
        f_priority(),
        f_attempt(),
        f_worker_id(),
        f_lease_expires_at(),
        f_created_at(),
        f_updated_at(),
        f_failure_reason(),
        f_workflow_run_id(),
        f_activity_id(),
        f_lease_renewals(),
    ];
    assert forall|a: int, b: int| 0 <= a < 15 && 0 <= b < 15 && a != b implies names[a]
        != names[b] by {
        if names[a].len() == names[b].len() {
            assert(names[a][0] != names[b][0]);
        }
    }
    assert forall|i: int| 0 <= i < 15 implies (#[trigger] m[i]).0 == names[i] by {}
    assert forall|i: int| 0 <= i < 15 implies lookup(m, names[i]) == Some(m[i].1) by {
        assert forall|k: int| 0 <= k < i implies (#[trigger] m[k]).0 != names[i] by {}
        lemma_lookup_skip(m, names[i], i);
        assert(m.skip(i)[0] == m[i]);
    }
}

/// Reading back fields that describe a storable job gives the job, given
/// that its payload text decodes to its payload.
pub proof fn lemma_decode_described(
    j: JobView,
    get: spec_fn(Seq<char>) -> Option<Seq<char>>,
    now: i64,
)
    requires
        storable(j),
        describes(get, j),
        base64_decoding(base64_encoding(j.payload)) == Some(j.payload),
    ensures
        decode_job(get, now) == Some(j),
{
    lemma_state_name_round_trip(j.state);
    lemma_parse_int_decimal(j.priority as int, true, i32::MIN as int, i32::MAX as int);
    lemma_parse_int_decimal(j.attempt as int, false, 0, u32::MAX as int);
    lemma_parse_int_decimal(j.created_at as int, true, i64::MIN as int, i64::MAX as int);
    lemma_parse_int_decimal(j.updated_at as int, true, i64::MIN as int, i64::MAX as int);
    lemma_parse_int_decimal(j.lease_renewals as int, false, 0, u32::MAX as int);
    if let Some(ms) = j.lease_expires_at {
        lemma_parse_int_decimal(ms as int, true, i64::MIN as int, i64::MAX as int);
        crate::decimal::lemma_decimal_digits_shape(if ms < 0 {
            (-ms) as nat
        } else {
            ms as nat
        });
        assert(int_decimal(ms as int).len() > 0);
    }
    let d = decode_job(get, now);
    assert(d == Some(j));
}

} // verus!
