use rust_thread_demo::tasks::{TaskQueue, WorkerAction};

#[test]
fn empty_queue_parks_the_worker() {
    let mut q = TaskQueue::new();
    assert_eq!(q.worker_step(), WorkerAction::Park);
    assert_eq!(q.len(), 0);
}

#[test]
fn submitted_task_is_run_next() {
    let mut q = TaskQueue::new();
    q.submit("任务A".to_string());
    assert_eq!(q.len(), 1);
    assert_eq!(q.worker_step(), WorkerAction::Run("任务A".to_string()));
    assert_eq!(q.len(), 0);
    assert_eq!(q.worker_step(), WorkerAction::Park);
}

#[test]
fn most_recent_task_is_taken_first() {
    let mut q = TaskQueue::new();
    q.submit("a".to_string());
    q.submit("b".to_string());
    q.submit("c".to_string());
    assert_eq!(q.worker_step(), WorkerAction::Run("c".to_string()));
    assert_eq!(q.worker_step(), WorkerAction::Run("b".to_string()));
    q.submit("d".to_string());
    assert_eq!(q.worker_step(), WorkerAction::Run("d".to_string()));
    assert_eq!(q.worker_step(), WorkerAction::Run("a".to_string()));
    assert_eq!(q.worker_step(), WorkerAction::Park);
}
