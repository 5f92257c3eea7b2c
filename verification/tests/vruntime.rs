use cfs_sched::vruntime::VRuntime;

#[test]
fn delta_is_the_signed_distance() {
    assert_eq!(VRuntime::new(10).delta(VRuntime::new(3)), 7);
    assert_eq!(VRuntime::new(3).delta(VRuntime::new(10)), -7);
    assert_eq!(VRuntime::new(5).delta(VRuntime::new(5)), 0);
}

#[test]
fn delta_across_the_wrap() {
    let before = VRuntime::new(u64::MAX - 4);
    let after = before.advance(10);
    assert_eq!(after.value(), 5);
    assert_eq!(after.delta(before), 10);
    assert_eq!(before.delta(after), -10);
    assert!(before.lt(after));
    assert!(!after.lt(before));
    assert_eq!(before.max(after), after);
    assert_eq!(before.min(after), before);
}

#[test]
fn delta_half_the_clock_apart() {
    let a = VRuntime::new(0);
    let b = VRuntime::new(1 << 63);
    assert_eq!(a.delta(b), i64::MIN);
    assert_eq!(b.delta(a), i64::MIN);
}

#[test]
fn advance_and_retreat_wrap() {
    assert_eq!(VRuntime::new(u64::MAX).advance(1).value(), 0);
    assert_eq!(VRuntime::new(0).retreat(1).value(), u64::MAX);
    assert_eq!(VRuntime::new(50_000).retreat(6_000_000).value(), 50_000u64.wrapping_sub(6_000_000));
    assert_eq!(VRuntime::new(7).advance(5).retreat(5).value(), 7);
}

#[test]
fn max_and_min_by_distance() {
    let floor = VRuntime::new(50_000).retreat(6_000_000);
    let task = VRuntime::new(10_000);
    assert_eq!(task.max(floor), task);
    assert_eq!(floor.max(task), task);
    assert_eq!(task.min(floor), floor);
    assert_eq!(VRuntime::new(1).max(VRuntime::new(1)), VRuntime::new(1));
}

#[test]
fn keys_put_the_earliest_first() {
    let early = VRuntime::new(10);
    let late = VRuntime::new(20);
    assert!(early.key() > late.key());
    assert_eq!(VRuntime::new(0).key(), -1);
    assert_eq!(VRuntime::new(u64::MAX).key(), 0);
    assert_eq!(VRuntime::new(i64::MAX as u64).key(), i64::MIN);
    assert_eq!(VRuntime::new(1 << 63).key(), i64::MAX);
}

#[test]
fn key_round_trip() {
    for value in [0u64, 1, 10_000, i64::MAX as u64, 1 << 63, u64::MAX - 5, u64::MAX] {
        let v = VRuntime::new(value);
        assert_eq!(VRuntime::from_key(v.key()), v);
    }
    for key in [0i64, -1, 1, i64::MIN, i64::MAX] {
        assert_eq!(VRuntime::from_key(key).key(), key);
    }
}

#[test]
fn virtual_runtime_from_a_value() {
    assert_eq!(VRuntime::from(42).value(), 42);
    assert_eq!(VRuntime::default(), VRuntime::new(0));
    let v: VRuntime = 7u64.into();
    assert_eq!(v, VRuntime::new(7));
}
