//! Worker registrations.
use vstd::prelude::*;
use std::collections::HashMap;
use crate::store::str_seq_view;

verus! {

/// A registered worker. Instants are milliseconds since the Unix epoch.
#[derive(Clone, Debug)]
pub struct WorkerRecord {
    pub id: String,
    pub queues: Vec<String>,
    pub capabilities: Vec<String>,
    pub labels: HashMap<String, String>,
    pub registered_at: i64,
    pub last_heartbeat_at: i64,
    pub status: String,
    pub metadata: HashMap<String, String>,
}

impl WorkerRecord {
    /// The record of a worker registering at `now`: active, with its first
    /// heartbeat at the moment of registration.
    pub fn registration(
        worker_id: &str,
        queues: Vec<String>,
        capabilities: Vec<String>,
        labels: HashMap<String, String>,
        metadata: HashMap<String, String>,
        now: i64,
    ) -> (r: WorkerRecord)
        ensures
            r.id@ == worker_id@,
            str_seq_view(r.queues@) == str_seq_view(queues@),
            str_seq_view(r.capabilities@) == str_seq_view(capabilities@),
            r.labels@ == labels@,
            r.metadata@ == metadata@,
            r.registered_at == now,
            r.last_heartbeat_at == now,
            r.status@ == "active"@,
    {
        WorkerRecord {
            id: String::from_str(worker_id),
            queues,
            capabilities,
            labels,
            registered_at: now,
            last_heartbeat_at: now,
            status: String::from_str("active"),
            metadata,
        }
    }

    /// Notes a heartbeat at `now`; nothing else changes.
    pub fn record_heartbeat(&mut self, now: i64)
        ensures
            final(self).last_heartbeat_at == now,
            final(self).id@ == old(self).id@,
            str_seq_view(final(self).queues@) == str_seq_view(old(self).queues@),
            str_seq_view(final(self).capabilities@) == str_seq_view(old(self).capabilities@),
            final(self).labels@ == old(self).labels@,
            final(self).metadata@ == old(self).metadata@,
            final(self).registered_at == old(self).registered_at,
            final(self).status@ == old(self).status@,
    {
        self.last_heartbeat_at = now;
    }
}

} // verus!
