use feather_server::keys::{queue_from_pending_key, KeyBuilder};

#[test]
fn namespace_isolation() {
    let k = KeyBuilder::new("acme");
    assert_eq!(k.job("abc"), "fe:acme:job:abc");
}

#[test]
fn every_key_has_the_namespace_prefix() {
    let k = KeyBuilder::new("ns");
    assert_eq!(k.queue_pending("default"), "fe:ns:queue:default:pending");
    assert_eq!(k.queue_leased("default"), "fe:ns:queue:default:leased");
    assert_eq!(k.job_events("j1"), "fe:ns:job:j1:events");
    assert_eq!(k.workers_active(), "fe:ns:workers:active");
    assert_eq!(k.worker("w1"), "fe:ns:workers:w1");
    assert_eq!(k.recent_jobs(), "fe:ns:index:jobs:recent");
    assert_eq!(k.job_prefix(), "fe:ns:job:");
    assert_eq!(k.queue_registry(), "fe:ns:index:queues");
}

#[test]
fn pending_key_names_its_queue() {
    let k = KeyBuilder::new("acme");
    let key = k.queue_pending("emails");
    assert_eq!(queue_from_pending_key(&key), Some("emails".to_string()));
}

#[test]
fn other_keys_name_no_queue() {
    assert_eq!(queue_from_pending_key("fe:acme:queue:emails:leased"), None);
    assert_eq!(queue_from_pending_key("fe:acme:job:abc"), None);
    assert_eq!(queue_from_pending_key("fe:acme:other:emails:pending"), None);
    assert_eq!(queue_from_pending_key(""), None);
    assert_eq!(queue_from_pending_key("a:b:queue:c:d:pending"), Some("c".to_string()));
}

#[test]
fn distinct_namespaces_give_distinct_keys() {
    let a = KeyBuilder::new("a");
    let b = KeyBuilder::new("b");
    assert_ne!(a.job("x"), b.job("x"));
    assert_ne!(a.queue_pending("q"), b.queue_pending("q"));
}
