use cfs_sched::task_queue::{
    calc_delta_fair, priority_to_weight, TaskQueue, TaskStats, WAKEUP_GRANULARITY_US,
};

#[test]
fn plain_weights_and_fair_time() {
    assert_eq!(priority_to_weight(0), 1024);
    assert_eq!(priority_to_weight(-20), 88761);
    assert_eq!(priority_to_weight(19), 15);
    assert_eq!(calc_delta_fair(1000, &TaskStats::new(0, 0, 0)), 1000);
    assert_eq!(calc_delta_fair(1000, &TaskStats::new(0, -20, 0)), 11);
    assert_eq!(calc_delta_fair(1000, &TaskStats::new(0, 19, 0)), 68_266);
    assert_eq!(calc_delta_fair(1000, &TaskStats::new(0, 5, 0)), 3_056);
    assert_eq!(calc_delta_fair(0, &TaskStats::new(0, 5, 0)), 0);
    assert_eq!(calc_delta_fair(u64::MAX / 1024, &TaskStats::new(0, 0, 0)), u64::MAX / 1024);
    assert_eq!(WAKEUP_GRANULARITY_US, 1000);
}

#[test]
fn plain_queue_starts_empty() {
    let mut queue = TaskQueue::new();
    assert_eq!(queue.current_task(), None);
    assert_eq!(queue.peek(), None);
    assert_eq!(queue.min_vruntime(), 0);
    assert_eq!(queue.pop_task_to_run(), None);
    assert_eq!(queue.task(0), None);
    assert_eq!(queue.take_current(), None);
}

#[test]
fn plain_queue_runs_the_task_with_the_least_virtual_runtime() {
    let mut queue = TaskQueue::new();
    queue.push_task_to_ready(1, 0);
    queue.push_task_to_ready(2, 0);
    queue.increase_vruntime(2, 500);
    assert_eq!(queue.task(2), Some(TaskStats::new(2, 0, 500)));
    assert_eq!(queue.peek(), Some((1, 0)));
    assert_eq!(queue.pop_task_to_run(), Some(TaskStats::new(1, 0, 0)));
    assert_eq!(queue.current_task(), Some(1));
    assert_eq!(queue.peek(), Some((2, 500)));
    assert_eq!(queue.min_vruntime(), 0);
    queue.increase_vruntime(1, 100);
    assert_eq!(queue.min_vruntime(), 100);
}

#[test]
fn plain_queue_gives_way_beyond_the_granularity_only() {
    let mut queue = TaskQueue::new();
    queue.push_task_to_ready(1, 0);
    assert_eq!(queue.pop_task_to_run(), Some(TaskStats::new(1, 0, 0)));
    queue.increase_vruntime(1, 1_000);
    assert_eq!(queue.task(1).unwrap().vruntime, 1_000);
    // A task that was never ready starts at the floor; with no ready task
    // the floor is 0.
    queue.push_task_to_ready(2, 5);
    assert_eq!(queue.task(2), Some(TaskStats::new(2, 5, 0)));
    // The running task is 1000 ahead; the granularity is worth 3056 to the
    // other.
    assert_eq!(queue.pop_task_to_run(), None);
    assert_eq!(queue.current_task(), Some(1));
    queue.increase_vruntime(1, 2_056);
    assert_eq!(queue.pop_task_to_run(), None);
    queue.increase_vruntime(1, 1);
    assert_eq!(queue.pop_task_to_run(), Some(TaskStats::new(2, 5, 0)));
    assert_eq!(queue.current_task(), Some(2));
    assert_eq!(queue.peek(), None);
}

#[test]
fn plain_queue_without_a_running_task_gives_way_at_once() {
    let mut queue = TaskQueue::new();
    queue.push_task_to_ready(1, 0);
    assert!(queue.pop_task_to_run().is_some());
    queue.increase_vruntime(1, 10);
    queue.push_task_to_ready(2, 0);
    assert_eq!(queue.pop_task_to_run(), None);
    assert_eq!(queue.take_current(), Some(1));
    assert_eq!(queue.current_task(), None);
    assert_eq!(queue.pop_task_to_run(), Some(TaskStats::new(2, 0, 0)));
}

#[test]
fn plain_queue_brings_a_task_up_to_the_floor() {
    let mut queue = TaskQueue::new();
    queue.push_task_to_ready(1, 0);
    queue.push_task_to_ready(2, 0);
    assert_eq!(queue.pop_task_to_run().unwrap().tid, 1);
    queue.increase_vruntime(1, 5_000);
    queue.increase_vruntime(2, 4_000);
    // The floor is the lesser of the running and the least ready.
    assert_eq!(queue.min_vruntime(), 4_000);
    assert_eq!(queue.take_current(), Some(1));
    // The task comes back with its own virtual runtime, which is past the
    // floor.
    queue.push_task_to_ready(1, 7);
    assert_eq!(queue.task(1), Some(TaskStats::new(1, 0, 5_000)));
    assert_eq!(queue.pop_task_to_run().unwrap().tid, 2);
    queue.increase_vruntime(2, 10_000);
    assert_eq!(queue.task(2).unwrap().vruntime, 14_000);
    // A task that is ready again keeps its place; a new one starts at the
    // floor.
    queue.push_task_to_ready(3, 0);
    assert_eq!(queue.task(3), Some(TaskStats::new(3, 0, 5_000)));
    assert_eq!(queue.min_vruntime(), 5_000);
}

#[test]
fn plain_queue_orders_large_virtual_runtimes() {
    let mut queue = TaskQueue::new();
    queue.push_task_to_ready(1, 0);
    queue.push_task_to_ready(2, 0);
    queue.increase_vruntime(1, u64::MAX / 1024);
    queue.increase_vruntime(1, u64::MAX / 1024);
    queue.increase_vruntime(1, u64::MAX / 1024);
    for _ in 0..600 {
        queue.increase_vruntime(2, u64::MAX / 1024);
    }
    let one = queue.task(1).unwrap().vruntime;
    let two = queue.task(2).unwrap().vruntime;
    assert!(one < (1 << 63) && two > (1 << 63));
    assert_eq!(queue.peek(), Some((1, one)));
    assert_eq!(queue.pop_task_to_run().unwrap().tid, 1);
    assert_eq!(queue.peek(), Some((2, two)));
}
