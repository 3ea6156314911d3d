//! Storage key layout: every key of a namespace starts with `fe:{namespace}:`.
use vstd::prelude::*;
use crate::text::{
    chars_equal, chars_of, free_of, join_with, lemma_split_join, lemma_split_on_concat,
    lemma_split_on_nonempty, lemma_split_on_plain, split_chars, split_on, string_from_chars,
};

verus! {

pub open spec fn w_fe() -> Seq<char> {
    seq!['f', 'e']
}

pub open spec fn w_queue() -> Seq<char> {
    seq!['q', 'u', 'e', 'u', 'e']
}

pub open spec fn w_pending() -> Seq<char> {
    seq!['p', 'e', 'n', 'd', 'i', 'n', 'g']
}

pub open spec fn w_leased() -> Seq<char> {
    seq!['l', 'e', 'a', 's', 'e', 'd']
}

pub open spec fn w_job() -> Seq<char> {
    seq!['j', 'o', 'b']
}

pub open spec fn w_events() -> Seq<char> {
    seq!['e', 'v', 'e', 'n', 't', 's']
}

pub open spec fn w_workers() -> Seq<char> {
    seq!['w', 'o', 'r', 'k', 'e', 'r', 's']
}

pub open spec fn w_active() -> Seq<char> {
    seq!['a', 'c', 't', 'i', 'v', 'e']
}

pub open spec fn w_index() -> Seq<char> {
    seq!['i', 'n', 'd', 'e', 'x']
}

pub open spec fn w_jobs() -> Seq<char> {
    seq!['j', 'o', 'b', 's']
}

pub open spec fn w_recent() -> Seq<char> {
    seq!['r', 'e', 'c', 'e', 'n', 't']
}

pub open spec fn w_queues() -> Seq<char> {
    seq!['q', 'u', 'e', 'u', 'e', 's']
}

pub open spec fn colon() -> Seq<char> {
    seq![':']
}

/// `fe:{ns}`, the start of every key of namespace `ns`.
pub open spec fn key_base(ns: Seq<char>) -> Seq<char> {
    w_fe() + colon() + ns
}

/// `fe:{ns}:queue:{q}:pending`: the list of pending job ids of queue `q`.
pub open spec fn queue_pending_key(ns: Seq<char>, q: Seq<char>) -> Seq<char> {
    key_base(ns) + colon() + w_queue() + colon() + q + colon() + w_pending()
}

/// `fe:{ns}:queue:{q}:leased`: the leased job ids of queue `q`, scored by expiry.
pub open spec fn queue_leased_key(ns: Seq<char>, q: Seq<char>) -> Seq<char> {
    key_base(ns) + colon() + w_queue() + colon() + q + colon() + w_leased()
}

/// `fe:{ns}:job:`, the start of every job key.
pub open spec fn job_prefix_key(ns: Seq<char>) -> Seq<char> {
    key_base(ns) + colon() + w_job() + colon()
}

/// `fe:{ns}:job:{id}`: the fields of job `id`.
pub open spec fn job_key(ns: Seq<char>, id: Seq<char>) -> Seq<char> {
    job_prefix_key(ns) + id
}

/// `fe:{ns}:job:{id}:events`: the event log of job `id`.
pub open spec fn job_events_key(ns: Seq<char>, id: Seq<char>) -> Seq<char> {
    job_key(ns, id) + colon() + w_events()
}

/// `fe:{ns}:workers:active`: the set of active worker ids.
pub open spec fn workers_active_key(ns: Seq<char>) -> Seq<char> {
    key_base(ns) + colon() + w_workers() + colon() + w_active()
}

/// `fe:{ns}:workers:{id}`: the registration of worker `id`.
pub open spec fn worker_key(ns: Seq<char>, id: Seq<char>) -> Seq<char> {
    key_base(ns) + colon() + w_workers() + colon() + id
}

/// `fe:{ns}:index:jobs:recent`: recent job ids, scored by creation time.
pub open spec fn recent_jobs_key(ns: Seq<char>) -> Seq<char> {
    key_base(ns) + colon() + w_index() + colon() + w_jobs() + colon() + w_recent()
}

/// `fe:{ns}:index:queues`: the names of every queue that ever received a job.
pub open spec fn queue_registry_key(ns: Seq<char>) -> Seq<char> {
    key_base(ns) + colon() + w_index() + colon() + w_queues()
}

/// The queue named by a pending-list key: the fourth `:`-separated piece of a
/// key of at least five pieces whose third is `queue` and whose last is
/// `pending`.
pub open spec fn pending_key_queue(key: Seq<char>) -> Option<Seq<char>> {
    let p = split_on(key, ':');
    if p.len() >= 5 && p[2] == w_queue() && p[p.len() - 1] == w_pending() {
        Some(p[3])
    } else {
        None
    }
}

proof fn lemma_words_free_of_colon()
    ensures
        free_of(w_fe(), ':'),
        free_of(w_queue(), ':'),
        free_of(w_pending(), ':'),
        free_of(w_leased(), ':'),
        free_of(w_job(), ':'),
{
    assert(!w_fe().contains(':')) by {
        if w_fe().contains(':') {
            let k = choose|k: int| 0 <= k < w_fe().len() && w_fe()[k] == ':';
            assert(0 <= k < 2);
        }
    }
    assert(!w_queue().contains(':')) by {
        if w_queue().contains(':') {
            let k = choose|k: int| 0 <= k < w_queue().len() && w_queue()[k] == ':';
            assert(0 <= k < 5);
        }
    }
    assert(!w_pending().contains(':')) by {
        if w_pending().contains(':') {
            let k = choose|k: int| 0 <= k < w_pending().len() && w_pending()[k] == ':';
            assert(0 <= k < 7);
        }
    }
    assert(!w_leased().contains(':')) by {
        if w_leased().contains(':') {
            let k = choose|k: int| 0 <= k < w_leased().len() && w_leased()[k] == ':';
            assert(0 <= k < 6);
        }
    }
    assert(!w_job().contains(':')) by {
        if w_job().contains(':') {
            let k = choose|k: int| 0 <= k < w_job().len() && w_job()[k] == ':';
            assert(0 <= k < 3);
        }
    }
}

/// The queue named in a pending-list key is read back from it, when neither
/// the namespace nor the queue name holds a `:`.
pub proof fn lemma_pending_key_round_trip(ns: Seq<char>, q: Seq<char>)
    requires
        free_of(ns, ':'),
        free_of(q, ':'),
    ensures
        pending_key_queue(queue_pending_key(ns, q)) == Some(q),
{
    lemma_words_free_of_colon();
    let parts = seq![w_fe(), ns, w_queue(), q, w_pending()];
    assert forall|i: int| 0 <= i < parts.len() implies free_of(#[trigger] parts[i], ':') by {
        if i == 0 {
        } else if i == 1 {
        } else if i == 2 {
        } else if i == 3 {
        } else {
        }
    }
    reveal_with_fuel(join_with, 5);
    assert(parts.drop_last().drop_last().drop_last().drop_last() =~= seq![w_fe()]);
    assert(parts.drop_last().drop_last().drop_last() =~= seq![w_fe(), ns]);
    assert(parts.drop_last().drop_last() =~= seq![w_fe(), ns, w_queue()]);
    assert(parts.drop_last() =~= seq![w_fe(), ns, w_queue(), q]);
    assert(join_with(parts, ':') =~= queue_pending_key(ns, q));
    lemma_split_join(parts, ':');
}

/// `split_on(fe:{ns}:{rest})` has `ns` as its second piece.
pub proof fn lemma_key_namespace_piece(ns: Seq<char>, rest: Seq<char>)
    requires
        free_of(ns, ':'),
    ensures
        split_on(key_base(ns) + colon() + rest, ':')[1] == ns,
{
    lemma_words_free_of_colon();
    lemma_split_on_plain(w_fe(), ':');
    lemma_split_on_plain(ns, ':');
    lemma_split_on_concat(w_fe(), ns, ':');
    lemma_split_on_concat(key_base(ns), rest, ':');
    lemma_split_on_nonempty(rest, ':');
}

/// Keys of two different namespaces (neither holding a `:`) never meet, for
/// job data, job event logs and queue lists alike.
pub proof fn lemma_namespace_isolation(ns1: Seq<char>, ns2: Seq<char>, a: Seq<char>, b: Seq<char>)
    requires
        free_of(ns1, ':'),
        free_of(ns2, ':'),
        ns1 != ns2,
    ensures
        job_key(ns1, a) != job_key(ns2, b),
        job_events_key(ns1, a) != job_events_key(ns2, b),
        queue_pending_key(ns1, a) != queue_pending_key(ns2, b),
        queue_leased_key(ns1, a) != queue_leased_key(ns2, b),
{
    let j1 = w_job() + colon() + a;
    let j2 = w_job() + colon() + b;
    assert(job_key(ns1, a) =~= key_base(ns1) + colon() + j1);
    assert(job_key(ns2, b) =~= key_base(ns2) + colon() + j2);
    lemma_key_namespace_piece(ns1, j1);
    lemma_key_namespace_piece(ns2, j2);
    let e1 = j1 + colon() + w_events();
    let e2 = j2 + colon() + w_events();
    assert(job_events_key(ns1, a) =~= key_base(ns1) + colon() + e1);
    assert(job_events_key(ns2, b) =~= key_base(ns2) + colon() + e2);
    lemma_key_namespace_piece(ns1, e1);
    lemma_key_namespace_piece(ns2, e2);
    let p1 = w_queue() + colon() + a + colon() + w_pending();
    let p2 = w_queue() + colon() + b + colon() + w_pending();
    assert(queue_pending_key(ns1, a) =~= key_base(ns1) + colon() + p1);
    assert(queue_pending_key(ns2, b) =~= key_base(ns2) + colon() + p2);
    lemma_key_namespace_piece(ns1, p1);
    lemma_key_namespace_piece(ns2, p2);
    let l1 = w_queue() + colon() + a + colon() + w_leased();
    let l2 = w_queue() + colon() + b + colon() + w_leased();
    assert(queue_leased_key(ns1, a) =~= key_base(ns1) + colon() + l1);
    assert(queue_leased_key(ns2, b) =~= key_base(ns2) + colon() + l2);
    lemma_key_namespace_piece(ns1, l1);
    lemma_key_namespace_piece(ns2, l2);
}

/// Within one namespace, different job ids have different job keys.
pub proof fn lemma_job_key_injective(ns: Seq<char>, a: Seq<char>, b: Seq<char>)
    requires
        job_key(ns, a) == job_key(ns, b),
    ensures
        a == b,
{
    let p = job_prefix_key(ns);
    assert(job_key(ns, a).subrange(p.len() as int, job_key(ns, a).len() as int) =~= a);
    assert(job_key(ns, b).subrange(p.len() as int, job_key(ns, b).len() as int) =~= b);
}

/// Within one namespace, different queues have different pending lists.
pub proof fn lemma_pending_key_injective(ns: Seq<char>, a: Seq<char>, b: Seq<char>)
    requires
        queue_pending_key(ns, a) == queue_pending_key(ns, b),
    ensures
        a == b,
{
    let p = key_base(ns) + colon() + w_queue() + colon();
    let ka = queue_pending_key(ns, a);
    let kb = queue_pending_key(ns, b);
    assert(ka =~= p + a + colon() + w_pending());
    assert(kb =~= p + b + colon() + w_pending());
    assert(a.len() == b.len());
    assert(ka.subrange(p.len() as int, (p.len() + a.len()) as int) =~= a);
    assert(kb.subrange(p.len() as int, (p.len() + b.len()) as int) =~= b);
}

/// A job's event log is never a queue's pending list.
pub proof fn lemma_events_key_not_pending(ns: Seq<char>, id: Seq<char>, q: Seq<char>)
    ensures
        job_events_key(ns, id) != queue_pending_key(ns, q),
{
    let n: int = key_base(ns).len() as int + 1;
    let ke = job_events_key(ns, id);
    let kp = queue_pending_key(ns, q);
    assert(ke =~= key_base(ns) + colon() + w_job() + colon() + id + colon() + w_events());
    assert(kp =~= key_base(ns) + colon() + w_queue() + colon() + q + colon() + w_pending());
    assert(ke[n] == 'j');
    assert(kp[n] == 'q');
}

/// Builds the storage keys of one namespace.
pub struct KeyBuilder {
    namespace: String,
}

impl View for KeyBuilder {
    type V = Seq<char>;

    closed spec fn view(&self) -> Seq<char> {
        self.namespace@
    }
}

impl KeyBuilder {
    pub fn new(namespace: &str) -> (r: Self)
        ensures
            r@ == namespace@,
    {
        KeyBuilder { namespace: String::from_str(namespace) }
    }

    /// `fe:{ns}`
    fn base(&self) -> (r: String)
        ensures
            r@ == key_base(self@),
    {
        let mut s = String::from_str("fe:");
        proof {
            reveal_strlit("fe:");
        }
        s.append(self.namespace.as_str());
        assert(s@ =~= key_base(self@));
        s
    }

    pub fn queue_pending(&self, queue: &str) -> (r: String)
        ensures
            r@ == queue_pending_key(self@, queue@),
    {
        let mut s = self.base();
        s.append(":queue:");
        s.append(queue);
        s.append(":pending");
        proof {
            reveal_strlit(":queue:");
            reveal_strlit(":pending");
        }
        assert(s@ =~= queue_pending_key(self@, queue@));
        s
    }

    pub fn queue_leased(&self, queue: &str) -> (r: String)
        ensures
            r@ == queue_leased_key(self@, queue@),
    {
        let mut s = self.base();
        s.append(":queue:");
        s.append(queue);
        s.append(":leased");
        proof {
            reveal_strlit(":queue:");
            reveal_strlit(":leased");
        }
        assert(s@ =~= queue_leased_key(self@, queue@));
        s
    }

    pub fn job(&self, id: &str) -> (r: String)
        ensures
            r@ == job_key(self@, id@),
    {
        let mut s = self.job_prefix();
        s.append(id);
        s
    }

    pub fn job_events(&self, id: &str) -> (r: String)
        ensures
            r@ == job_events_key(self@, id@),
    {
        let mut s = self.job(id);
        s.append(":events");
        proof {
            reveal_strlit(":events");
        }
        assert(s@ =~= job_events_key(self@, id@));
        s
    }

    pub fn workers_active(&self) -> (r: String)
        ensures
            r@ == workers_active_key(self@),
    {
        let mut s = self.base();
        s.append(":workers:active");
        proof {
            reveal_strlit(":workers:active");
        }
        assert(s@ =~= workers_active_key(self@));
        s
    }

    pub fn worker(&self, id: &str) -> (r: String)
        ensures
            r@ == worker_key(self@, id@),
    {
        let mut s = self.base();
        s.append(":workers:");
        s.append(id);
        proof {
            reveal_strlit(":workers:");
        }
        assert(s@ =~= worker_key(self@, id@));
        s
    }

    pub fn recent_jobs(&self) -> (r: String)
        ensures
            r@ == recent_jobs_key(self@),
    {
        let mut s = self.base();
        s.append(":index:jobs:recent");
        proof {
            reveal_strlit(":index:jobs:recent");
        }
        assert(s@ =~= recent_jobs_key(self@));
        s
    }

    pub fn queue_registry(&self) -> (r: String)
        ensures
            r@ == queue_registry_key(self@),
    {
        let mut s = self.base();
        s.append(":index:queues");
        proof {
            reveal_strlit(":index:queues");
        }
        assert(s@ =~= queue_registry_key(self@));
        s
    }

    pub fn job_prefix(&self) -> (r: String)
        ensures
            r@ == job_prefix_key(self@),
    {
        let mut s = self.base();
        s.append(":job:");
        proof {
            reveal_strlit(":job:");
        }
        assert(s@ =~= job_prefix_key(self@));
        s
    }
}

/// The queue named by a pending-list key, if the key has that shape.
pub fn queue_from_pending_key(key: &str) -> (r: Option<String>)
    ensures
        r matches Some(q) ==> pending_key_queue(key@) == Some(q@),
        r is None ==> pending_key_queue(key@) is None,
{
    let parts = split_chars(key, ':');
    let n = parts.len();
    if n >= 5 {
        let queue_word = chars_of("queue");
        let pending_word = chars_of("pending");
        proof {
            reveal_strlit("queue");
            reveal_strlit("pending");
            assert(queue_word@ =~= w_queue());
            assert(pending_word@ =~= w_pending());
        }
        if chars_equal(&parts[2], &queue_word) && chars_equal(&parts[n - 1], &pending_word) {
            return Some(string_from_chars(&parts[3]));
        }
    }
    None
}

} // verus!
