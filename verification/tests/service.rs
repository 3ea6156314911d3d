use feather_server::config::AppConfig;
use feather_server::service::QueueService;
use feather_server::store::StorageError;
use feather_server::job::JobState;

#[test]
fn queue_names() {
    assert_eq!(QueueService::validate_queue("emails-2_x"), Ok(()));
    assert_eq!(QueueService::validate_queue(""), Err("queue name must be 1-64 chars".to_string()));
    assert_eq!(QueueService::validate_queue(&"a".repeat(64)), Ok(()));
    assert_eq!(QueueService::validate_queue(&"a".repeat(65)), Err("queue name must be 1-64 chars".to_string()));
    assert_eq!(QueueService::validate_queue("a:b"), Err("invalid queue name".to_string()));
    assert_eq!(QueueService::validate_queue("é"), Err("invalid queue name".to_string()));
    assert_eq!(QueueService::validate_queue(&"é".repeat(33)), Err("queue name must be 1-64 chars".to_string()));
}

#[test]
fn task_names() {
    assert_eq!(QueueService::validate_task_name("send-email"), Ok(()));
    assert_eq!(QueueService::validate_task_name(""), Err("task name must be 1-128 chars".to_string()));
    assert_eq!(QueueService::validate_task_name(&"ü".repeat(64)), Ok(()));
    assert_eq!(QueueService::validate_task_name(&"ü".repeat(65)), Err("task name must be 1-128 chars".to_string()));
}

#[test]
fn enqueue_makes_a_pending_job() {
    let svc = QueueService::new(AppConfig::fallback());
    let job = svc.prepare_enqueue("", "send", vec![1, 2], 5, "id-1".into(), 99).unwrap();
    assert_eq!(job.queue, "default");
    assert_eq!(job.id, "id-1");
    assert_eq!(job.state, JobState::Pending);
    assert_eq!(job.created_at, 99);
    let job = svc.enqueue_job("emails", "send", vec![], 0).unwrap();
    assert_eq!(job.id.len(), 36);
    assert_eq!(job.id.as_bytes()[14], b'7');
    assert!(matches!(job.id.as_bytes()[19], b'8' | b'9' | b'a' | b'b'));
    assert!(job.id.chars().all(|c| c == '-' || c.is_ascii_digit() || ('a'..='f').contains(&c)));
    assert_eq!(job.id.matches('-').count(), 4);
    assert!(job.created_at > 0);
}

#[test]
fn enqueue_refusals() {
    let mut config = AppConfig::fallback();
    config.max_payload_bytes = 4;
    let svc = QueueService::new(config);
    let r = svc.prepare_enqueue("bad queue", "t", vec![], 0, "i".into(), 0);
    assert!(matches!(r, Err(StorageError::Other(m)) if m == "invalid queue name"));
    let r = svc.prepare_enqueue("q", "", vec![], 0, "i".into(), 0);
    assert!(matches!(r, Err(StorageError::Other(m)) if m == "task name must be 1-128 chars"));
    let r = svc.prepare_enqueue("q", "t", vec![0; 5], 0, "i".into(), 0);
    assert!(matches!(r, Err(StorageError::Other(m)) if m == "payload exceeds max 4 bytes"));
    assert!(svc.prepare_enqueue("q", "t", vec![0; 4], 0, "i".into(), 0).is_ok());
}

#[test]
fn dequeue_defaults() {
    let svc = QueueService::new(AppConfig::fallback());
    let r = svc.dequeue_request(&vec![], -5, 0);
    assert_eq!(r.queues, vec!["default"]);
    assert_eq!(r.wait_timeout_ms, 0);
    assert_eq!(r.max_jobs, 1);
    assert_eq!(r.lease_duration_ms, 30_000);
    let r = svc.dequeue_request(&vec!["a".into(), "b".into()], 2_000, 7);
    assert_eq!(r.queues, vec!["a", "b"]);
    assert_eq!(r.wait_timeout_ms, 2_000);
    assert_eq!(r.max_jobs, 7);
}
