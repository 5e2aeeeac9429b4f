use aether::execution::TransferPriority;
use aether::transfer_scheduler::{outranks, TaskIds, TransferQueue, TransferTask};
use aether::types::{Location, StateId};

fn task(ids: &mut TaskIds, name: &str, size: u64) -> TransferTask {
    TransferTask::new(ids, StateId::new(name.to_string()), Location::Dram, Location::Hbm, size)
}

#[test]
fn test_transfer_task_priority() {
    let mut ids = TaskIds::new();
    let critical = task(&mut ids, "s0", 1000).with_priority(TransferPriority::Critical);
    let normal = task(&mut ids, "s1", 1000).with_priority(TransferPriority::Normal);
    assert!(outranks(&critical, &normal));
    assert!(critical.is_critical());
}

#[test]
fn test_transfer_task_deadline() {
    let mut ids = TaskIds::new();
    let urgent = task(&mut ids, "s0", 1000).with_deadline(10);
    let relaxed = task(&mut ids, "s1", 1000).with_deadline(100);
    // Same priority, earlier deadline wins
    assert!(outranks(&urgent, &relaxed));
    assert!(!outranks(&relaxed, &urgent));
}

#[test]
fn task_ids_count_up() {
    let mut ids = TaskIds::new();
    assert_eq!(task(&mut ids, "a", 1).id, 0);
    assert_eq!(task(&mut ids, "b", 1).id, 1);
}

#[test]
fn queue_starts_best_first_within_the_limit() {
    let mut ids = TaskIds::new();
    let mut q = TransferQueue::new(1);
    let first = q.submit(task(&mut ids, "a", 10));
    let background = q.submit(task(&mut ids, "b", 20).with_priority(TransferPriority::Background));
    let late = q.submit(task(&mut ids, "c", 30).with_deadline(500));
    let soon = q.submit(task(&mut ids, "d", 40).with_deadline(100));
    let critical = q.submit(task(&mut ids, "e", 50).with_priority(TransferPriority::Critical));
    assert_eq!(q.active_ids(), vec![first]);
    assert_eq!(q.pending_count(), 4);
    let done = q.complete(first).unwrap();
    assert_eq!(done.size_bytes, 10);
    assert_eq!(q.active_ids(), vec![critical]);
    q.complete(critical).unwrap();
    assert_eq!(q.active_ids(), vec![soon]);
    q.complete(soon).unwrap();
    assert_eq!(q.active_ids(), vec![late]);
    q.complete(late).unwrap();
    assert_eq!(q.active_ids(), vec![background]);
    assert!(q.complete(first).is_none());
    let stats = q.stats();
    assert_eq!(stats.tasks_submitted, 5);
    assert_eq!(stats.tasks_completed, 4);
    assert_eq!(stats.bytes_transferred, 130);
}

#[test]
fn queue_cancels_pending_tasks_only() {
    let mut ids = TaskIds::new();
    let mut q = TransferQueue::new(1);
    let a = q.submit(task(&mut ids, "a", 1));
    let b = q.submit(task(&mut ids, "b", 1));
    assert!(!q.cancel(a));
    assert!(q.is_scheduled(a));
    assert!(q.cancel(b));
    assert!(!q.is_scheduled(b));
    assert!(!q.cancel(b));
    assert_eq!(q.pending_count(), 0);
    assert_eq!(q.active_count(), 1);
    assert_eq!(q.stats().tasks_cancelled, 1);
}

#[test]
fn queue_takes_a_batch() {
    let mut ids = TaskIds::new();
    let mut q = TransferQueue::new(2);
    let batch = vec![task(&mut ids, "a", 1), task(&mut ids, "b", 1), task(&mut ids, "c", 1)];
    assert_eq!(q.submit_batch(batch), vec![0, 1, 2]);
    assert_eq!(q.active_ids(), vec![0, 1]);
    assert_eq!(q.pending_count(), 1);
    assert_eq!(q.stats().tasks_submitted, 3);
}
