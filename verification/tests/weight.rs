use cfs_sched::task::SchedTask;
use cfs_sched::vruntime::VRuntime;
use cfs_sched::weight::{
    calc_delta, nice_to_weight, sched_period, LoadWeight, MAX_NICE, MIN_NICE, NICE_0_WEIGHT,
    SCHED_LATENCY, SCHED_MIN_GRANULARITY, SCHED_NR_LATENCY,
};

#[test]
fn nice_zero_has_the_default_weight() {
    assert_eq!(nice_to_weight(0), NICE_0_WEIGHT);
    assert_eq!(NICE_0_WEIGHT, 1024);
}

#[test]
fn weight_table_ends() {
    assert_eq!(nice_to_weight(MIN_NICE), 88761);
    assert_eq!(nice_to_weight(MAX_NICE), 15);
    assert_eq!(nice_to_weight(-1), 1277);
    assert_eq!(nice_to_weight(1), 820);
    assert_eq!(nice_to_weight(5), 335);
}

#[test]
fn weight_falls_as_nice_rises() {
    let mut nice = MIN_NICE;
    while nice < MAX_NICE {
        assert!(nice_to_weight(nice) > nice_to_weight(nice + 1));
        nice += 1;
    }
}

#[test]
fn weight_steps_are_about_a_quarter() {
    let mut nice = MIN_NICE;
    while nice < MAX_NICE {
        let heavy = nice_to_weight(nice) as f64;
        let light = nice_to_weight(nice + 1) as f64;
        let ratio = heavy / light;
        assert!(ratio > 1.15 && ratio < 1.35, "nice {}: ratio {}", nice, ratio);
        nice += 1;
    }
}

#[test]
fn inverse_weight_values() {
    assert_eq!(LoadWeight::new(1024).inv_weight(), 4194304);
    assert_eq!(LoadWeight::new(15).inv_weight(), 286331153);
    assert_eq!(LoadWeight::new(3).inv_weight(), 1431655765);
    assert_eq!(LoadWeight::new(2).inv_weight(), 0x8000_0000);
}

#[test]
fn inverse_weight_edges() {
    assert_eq!(LoadWeight::new(0).inv_weight(), 0xffff_ffff);
    assert_eq!(LoadWeight::new(1).inv_weight(), 0xffff_ffff);
    assert_eq!(LoadWeight::new(0xffff_ffff).inv_weight(), 1);
    assert_eq!(LoadWeight::new(0x1_0000_0000).inv_weight(), 1);
    assert_eq!(LoadWeight::new(u64::MAX).inv_weight(), 1);
}

#[test]
fn load_weight_sums() {
    let a = LoadWeight::new(1024);
    let b = LoadWeight::new(15);
    assert_eq!(a.plus(b).weight(), 1039);
    assert_eq!(a.plus(b).minus(a).weight(), 15);
    assert_eq!(a.plus(b).inv_weight(), 4133751);
}

#[test]
fn calc_delta_whole_share() {
    assert_eq!(calc_delta(6_000_000, 1024, LoadWeight::new(1024)), 6_000_000);
}

#[test]
fn calc_delta_half_share() {
    assert_eq!(calc_delta(6_000_000, 1024, LoadWeight::new(2048)), 3_000_000);
}

#[test]
fn calc_delta_rounds_down() {
    assert_eq!(calc_delta(6_000_000, 15, LoadWeight::new(15)), 5_999_999);
    assert_eq!(calc_delta(6_000_000, 1024, LoadWeight::new(1039)), 5_913_378);
}

#[test]
fn calc_delta_of_nothing() {
    assert_eq!(calc_delta(0, 1024, LoadWeight::new(15)), 0);
    assert_eq!(calc_delta(1_000_000, 0, LoadWeight::new(15)), 0);
}

#[test]
fn calc_delta_halves_a_wide_weight() {
    // 2^33 is halved twice; the inverse of a weight above 2^32 - 1 is 1.
    assert_eq!(calc_delta(1 << 30, 1 << 33, LoadWeight::new(1 << 33)), 1 << 31);
}

#[test]
fn sched_period_stretches_under_load() {
    assert_eq!(sched_period(0), SCHED_LATENCY);
    assert_eq!(sched_period(1), 6_000_000);
    assert_eq!(sched_period(SCHED_NR_LATENCY), 6_000_000);
    assert_eq!(sched_period(SCHED_NR_LATENCY + 1), 9 * SCHED_MIN_GRANULARITY);
    assert_eq!(sched_period(100), 75_000_000);
}

#[test]
fn delta_fair_is_plain_time_at_nice_zero() {
    let task = SchedTask::new(0, 0, 0, VRuntime::new(0));
    assert_eq!(task.delta_fair(1_000_000), 1_000_000);
    assert_eq!(task.delta_fair(0), 0);
    assert_eq!(task.delta_fair(u64::MAX), u64::MAX);
}

#[test]
fn delta_fair_scales_by_weight() {
    assert_eq!(SchedTask::new(0, 5, 0, VRuntime::new(0)).delta_fair(1_000_000), 3_056_716);
    assert_eq!(SchedTask::new(0, -20, 0, VRuntime::new(0)).delta_fair(1_000_000), 11_536);
    assert_eq!(SchedTask::new(0, 19, 0, VRuntime::new(0)).delta_fair(1_000_000), 68_266_666);
}

#[test]
fn nicer_tasks_gather_virtual_time_faster() {
    let mut nice = MIN_NICE;
    while nice < MAX_NICE {
        let favoured = SchedTask::new(0, nice, 0, VRuntime::new(0)).delta_fair(1_000_000);
        let nicer = SchedTask::new(0, nice + 1, 0, VRuntime::new(0)).delta_fair(1_000_000);
        assert!(favoured < nicer);
        let ratio = nicer as f64 / favoured as f64;
        let weights = nice_to_weight(nice) as f64 / nice_to_weight(nice + 1) as f64;
        assert!((ratio - weights).abs() < 0.01, "nice {}: {} against {}", nice, ratio, weights);
        nice += 1;
    }
}

#[test]
fn task_tick_charges_the_run() {
    let mut task = SchedTask::new(7, 5, 0, VRuntime::new(100));
    task.exec_start = 1_000;
    task.tick(1_001_000);
    assert_eq!(task.exec_start, 1_001_000);
    assert_eq!(task.sum_exec_runtime, 1_000_000);
    assert_eq!(task.prev_sum_exec_runtime, 0);
    assert_eq!(task.vruntime, VRuntime::new(100 + 3_056_716));
    assert_eq!(task.tid, 7);
    assert_eq!(task.nice, 5);
    assert_eq!(task.load.weight(), 335);
}

#[test]
fn new_task_has_not_run() {
    let task = SchedTask::new(3, -5, 2, VRuntime::new(42));
    assert_eq!(task.tid, 3);
    assert_eq!(task.nice, -5);
    assert_eq!(task.load.weight(), 3121);
    assert!(!task.on_rq);
    assert_eq!(task.run_queue, 2);
    assert_eq!(task.exec_start, 0);
    assert_eq!(task.sum_exec_runtime, 0);
    assert_eq!(task.prev_sum_exec_runtime, 0);
    assert_eq!(task.vruntime.value(), 42);
}
