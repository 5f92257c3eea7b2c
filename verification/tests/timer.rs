use cfs_sched::timer::{DelayFuture, Timer};

#[test]
fn timer_expires_in_order_of_deadline() {
    let mut timer: Timer<&'static str> = Timer::new();
    assert_eq!(timer.len(), 0);
    assert_eq!(timer.add(300, "c"), 300);
    assert_eq!(timer.add(100, "a"), 100);
    assert_eq!(timer.add(200, "b"), 200);
    assert_eq!(timer.len(), 3);
    assert_eq!(timer.expire(99), vec![]);
    assert_eq!(timer.len(), 3);
    assert_eq!(timer.expire(200), vec![(100, "a"), (200, "b")]);
    assert_eq!(timer.len(), 1);
    assert_eq!(timer.expire(200), vec![]);
    assert_eq!(timer.expire(u64::MAX), vec![(300, "c")]);
    assert_eq!(timer.len(), 0);
    assert_eq!(timer.expire(u64::MAX), vec![]);
}

#[test]
fn timer_moves_an_event_past_taken_deadlines() {
    let mut timer: Timer<u32> = Timer::new();
    assert_eq!(timer.add(100, 1), 100);
    assert_eq!(timer.add(100, 2), 101);
    assert_eq!(timer.add(100, 3), 102);
    assert_eq!(timer.add(101, 4), 103);
    assert_eq!(timer.len(), 4);
    assert_eq!(timer.expire(101), vec![(100, 1), (101, 2)]);
    assert_eq!(timer.add(100, 5), 100);
    assert_eq!(timer.expire(1_000), vec![(100, 5), (102, 3), (103, 4)]);
}

#[test]
fn timer_expires_what_is_due_exactly_now() {
    let mut timer: Timer<u32> = Timer::new();
    timer.add(0, 7);
    timer.add(5, 8);
    assert_eq!(timer.expire(0), vec![(0, 7)]);
    assert_eq!(timer.expire(4), vec![]);
    assert_eq!(timer.expire(5), vec![(5, 8)]);
}

#[test]
fn delay_is_over_at_its_deadline() {
    let delay = DelayFuture::new(1_000);
    assert_eq!(delay.deadline(), 1_000);
    assert!(!delay.is_ready(999));
    assert!(delay.is_ready(1_000));
    assert!(delay.is_ready(1_001));
    assert!(DelayFuture::new(0).is_ready(0));
}
