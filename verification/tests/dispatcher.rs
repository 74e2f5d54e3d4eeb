use gpui_mobile::dispatcher::{DelayedQueue, TaskQueue, ThreadPool};
use std::sync::mpsc::channel;

const SECOND: u64 = 1_000_000_000;

#[test]
fn delayed_tasks_not_early() {
    let now: u64 = 5 * SECOND;
    let mut delayed: DelayedQueue<&str> = DelayedQueue::new();
    delayed.schedule(now + 60 * SECOND, "task");
    let ready = delayed.take_ready(now);
    assert!(ready.is_empty(), "task should not run yet");
    assert_eq!(delayed.len(), 1);
}

#[test]
fn due_tasks_come_out_in_due_order() {
    let mut delayed = DelayedQueue::new();
    delayed.schedule(30, "c");
    delayed.schedule(10, "a");
    delayed.schedule(20, "b");
    delayed.schedule(40, "d");
    assert_eq!(delayed.take_ready(25), vec!["a", "b"]);
    assert_eq!(delayed.len(), 2);
    assert_eq!(delayed.take_ready(30), vec!["c"]);
    assert_eq!(delayed.take_ready(100), vec!["d"]);
    assert_eq!(delayed.len(), 0);
}

#[test]
fn equal_due_times_keep_scheduling_order() {
    let mut delayed = DelayedQueue::new();
    delayed.schedule(10, 1);
    delayed.schedule(5, 0);
    delayed.schedule(10, 2);
    delayed.schedule(10, 3);
    assert_eq!(delayed.take_ready(10), vec![0, 1, 2, 3]);
}

#[test]
fn task_due_exactly_now_is_ready() {
    let mut delayed = DelayedQueue::new();
    delayed.schedule(7, 'x');
    assert!(delayed.take_ready(6).is_empty());
    assert_eq!(delayed.take_ready(7), vec!['x']);
}

#[test]
fn main_queue_is_first_in_first_out() {
    let mut q = TaskQueue::new();
    assert!(q.is_empty());
    q.push(1);
    q.push(2);
    q.push(3);
    assert_eq!(q.len(), 3);
    assert_eq!(q.pop(), Some(1));
    q.push(4);
    assert_eq!(q.pop(), Some(2));
    assert_eq!(q.pop(), Some(3));
    assert_eq!(q.pop(), Some(4));
    assert_eq!(q.pop(), None);
}

#[test]
fn pool_hands_every_task_to_the_channel() {
    let (sender, receiver) = channel::<u32>();
    let pool = ThreadPool::from_sender(sender);
    for i in 0..10 {
        pool.dispatch(i);
    }
    let received: Vec<u32> = receiver.try_iter().collect();
    assert_eq!(received, (0..10).collect::<Vec<u32>>());
}

#[test]
fn pool_without_workers_drops_tasks() {
    let (sender, receiver) = channel::<u32>();
    drop(receiver);
    let pool = ThreadPool::from_sender(sender);
    pool.dispatch(1);
}
