use sodium::api::Command;
use sodium::cache::Sodium;
use sodium::protocol::Outcome;
use sodium::threading::{idle_sleep_millis, Task, ThreadPool, WorkQueue, WorkerAction};

#[test]
fn queue_is_first_in_first_out() {
    let mut q: WorkQueue<u32> = WorkQueue::new();
    assert_eq!(q.len(), 0);
    assert_eq!(q.pop(), None);
    assert!(q.push(1));
    assert!(q.push(2));
    assert!(q.push(3));
    assert_eq!(q.len(), 3);
    assert_eq!(q.pop(), Some(1));
    assert_eq!(q.pop(), Some(2));
    assert_eq!(q.pop(), Some(3));
    assert_eq!(q.pop(), None);
}

#[test]
fn stealing_takes_the_newest() {
    let mut q: WorkQueue<u32> = WorkQueue::new();
    assert_eq!(q.steal(), None);
    q.push(1);
    q.push(2);
    q.push(3);
    assert_eq!(q.steal(), Some(3));
    assert_eq!(q.pop(), Some(1));
    assert_eq!(q.steal(), Some(2));
    assert_eq!(q.steal(), None);
}

#[test]
fn a_queue_that_is_shut_down_refuses_tasks_and_keeps_its_own() {
    let mut q: WorkQueue<u32> = WorkQueue::new();
    q.push(1);
    q.shutdown();
    assert!(!q.push(2));
    assert_eq!(q.len(), 1);
    assert_eq!(q.pop(), Some(1));
}

#[test]
fn submissions_go_round_the_queues() {
    let mut pool: ThreadPool<u32> = ThreadPool::new(3);
    assert_eq!(pool.num_threads(), 3);
    for task in 0..7 {
        assert!(pool.execute(task));
    }
    // Queue 0 holds 0, 3, 6; queue 1 holds 1, 4; queue 2 holds 2, 5.
    assert_eq!(pool.next_task(0), Some(0));
    assert_eq!(pool.next_task(0), Some(3));
    assert_eq!(pool.next_task(0), Some(6));
    assert_eq!(pool.next_task(1), Some(1));
    assert_eq!(pool.next_task(2), Some(2));
    // Queue 0 is empty: its worker steals the newest of the first other
    // queue that holds a task.
    assert_eq!(pool.next_task(0), Some(4));
    assert_eq!(pool.next_task(0), Some(5));
    assert_eq!(pool.next_task(0), None);
    assert_eq!(pool.next_task(1), None);
}

#[test]
fn a_worker_does_not_steal_from_itself() {
    let mut pool: ThreadPool<u32> = ThreadPool::new(1);
    assert_eq!(pool.next_task(0), None);
    pool.execute(9);
    assert_eq!(pool.next_task(0), Some(9));
    let mut none: ThreadPool<u32> = ThreadPool::new(0);
    assert!(!none.execute(1));
}

#[test]
fn a_pool_that_is_shut_down_refuses_tasks() {
    let mut pool: ThreadPool<u32> = ThreadPool::new(2);
    assert!(!pool.is_shutdown());
    pool.execute(1);
    pool.execute(2);
    pool.shutdown();
    assert!(pool.is_shutdown());
    assert!(!pool.execute(3));
    // What waits is still run by the owner of its queue.
    assert!(matches!(pool.worker_step(0, 0), (WorkerAction::Run(1), 0)));
    assert!(matches!(pool.worker_step(0, 0), (WorkerAction::Exit, 0)));
    assert!(matches!(pool.worker_step(1, 4), (WorkerAction::Run(2), 0)));
    assert!(matches!(pool.worker_step(1, 4), (WorkerAction::Exit, 4)));
}

#[test]
fn idle_workers_back_off_up_to_fifty_milliseconds() {
    let mut pool: ThreadPool<u32> = ThreadPool::new(2);
    assert!(matches!(pool.worker_step(0, 0), (WorkerAction::Sleep(1), 1)));
    assert!(matches!(pool.worker_step(0, 1), (WorkerAction::Sleep(2), 2)));
    assert!(matches!(pool.worker_step(0, 48), (WorkerAction::Sleep(49), 49)));
    assert!(matches!(pool.worker_step(0, 49), (WorkerAction::Sleep(50), 50)));
    assert!(matches!(pool.worker_step(0, 50), (WorkerAction::Sleep(50), 51)));
    assert!(matches!(pool.worker_step(0, u32::MAX), (WorkerAction::Sleep(50), u32::MAX)));
    pool.execute(7);
    assert!(matches!(pool.worker_step(1, 30), (WorkerAction::Run(7), 0)));
    assert_eq!(idle_sleep_millis(0), 0);
    assert_eq!(idle_sleep_millis(17), 17);
    assert_eq!(idle_sleep_millis(50), 50);
    assert_eq!(idle_sleep_millis(51), 50);
}

#[test]
fn a_task_is_run_and_its_channel_handed_back() {
    let mut store = Sodium::new();
    let task = Task {
        command: Command::Put { key: "k".to_string(), value: "v".to_string() },
        sender: 42u8,
    };
    let (sender, result) = ThreadPool::execute_task(&mut store, task);
    assert_eq!(sender, 42);
    assert_eq!(result, Ok(Outcome::Stored));
    let task = Task { command: Command::Get { key: "k".to_string() }, sender: "reply" };
    let (sender, result) = ThreadPool::execute_task(&mut store, task);
    assert_eq!(sender, "reply");
    assert_eq!(result, Ok(Outcome::Value(Some("v".to_string()))));
}
