use cfs_sched::features::SchedFeatures;

#[test]
fn default_features() {
    let features = SchedFeatures::new();
    assert_eq!(features.bits(), 0b0011_1011);
    assert_eq!(features, SchedFeatures::default());
    assert!(features.contains(SchedFeatures::GENTLE_FAIR_SLEEPERS));
    assert!(features.contains(SchedFeatures::START_DEBIT));
    assert!(!features.contains(SchedFeatures::NEXT_BUDDY));
    assert!(features.contains(SchedFeatures::LAST_BUDDY));
    assert!(features.contains(SchedFeatures::CACHE_HOT_BUDDY));
    assert!(features.contains(SchedFeatures::WAKEUP_PREEMPTION));
    assert!(features.contains(SchedFeatures::START_DEBIT | SchedFeatures::LAST_BUDDY));
    assert!(!features.contains(SchedFeatures::START_DEBIT | SchedFeatures::NEXT_BUDDY));
}

#[test]
fn features_are_switched_one_by_one() {
    let none = SchedFeatures::empty();
    assert_eq!(none.bits(), 0);
    assert!(none.contains(0));
    assert!(!none.contains(SchedFeatures::START_DEBIT));
    let some = none.with(SchedFeatures::NEXT_BUDDY).with(SchedFeatures::START_DEBIT);
    assert_eq!(some.bits(), 0b0000_0110);
    assert_eq!(some.without(SchedFeatures::NEXT_BUDDY).bits(), 0b0000_0010);
    assert_eq!(some.without(SchedFeatures::LAST_BUDDY), some);
    assert_eq!(SchedFeatures::from_bits_truncate(0xffff_ffff).bits(), 0b0011_1111);
    assert_eq!(SchedFeatures::from_bits_truncate(0b0100_0001).bits(), 1);
}
