use cfs_sched::run_queue::RunQueue;
use cfs_sched::task::{SchedTask, Tid};
use cfs_sched::tasks::TaskTable;
use cfs_sched::vruntime::VRuntime;
use cfs_sched::weight::{LoadWeight, SCHED_MIN_GRANULARITY};

fn put(tasks: &mut TaskTable, rq: &mut RunQueue, nice: isize, vruntime: u64) -> Tid {
    let tid = tasks.next_vacant();
    let mut task = SchedTask::new(tid, nice, 0, VRuntime::new(vruntime));
    task.on_rq = true;
    assert_eq!(tasks.insert(task), tid);
    rq.insert_task(tid, task.vruntime, task.load);
    tid
}

fn requeue(tasks: &mut TaskTable, rq: &mut RunQueue, tid: Tid) {
    let task = tasks.get(tid).unwrap();
    rq.insert_task(tid, task.vruntime, task.load);
}

#[test]
fn new_queue_is_empty() {
    let rq = RunQueue::new();
    assert_eq!(rq.nr_running(), 0);
    assert_eq!(rq.load().weight(), 0);
    assert_eq!(rq.min_vruntime(), VRuntime::new(0));
    assert_eq!(rq.current_task(), None);
    assert_eq!(rq.ready_len(), 0);
    assert_eq!(rq.peek(), None);
    assert!(!rq.is_current_task(0));
}

#[test]
fn insert_counts_a_task_once() {
    let mut tasks = TaskTable::new();
    let mut rq = RunQueue::new();
    let a = put(&mut tasks, &mut rq, 0, 100);
    assert_eq!(rq.nr_running(), 1);
    assert_eq!(rq.load().weight(), 1024);
    assert_eq!(rq.ready_len(), 1);
    assert_eq!(rq.ready_vruntime(a), Some(VRuntime::new(100)));
    // Putting the task in again changes its key and nothing else.
    rq.insert_task(a, VRuntime::new(50), LoadWeight::new(1024));
    assert_eq!(rq.nr_running(), 1);
    assert_eq!(rq.load().weight(), 1024);
    assert_eq!(rq.ready_len(), 1);
    assert_eq!(rq.ready_vruntime(a), Some(VRuntime::new(50)));
    let b = put(&mut tasks, &mut rq, 5, 70);
    assert_eq!(rq.nr_running(), 2);
    assert_eq!(rq.load().weight(), 1024 + 335);
    assert_eq!(rq.ready_vruntime(b), Some(VRuntime::new(70)));
    assert_eq!(rq.ready_vruntime(99), None);
}

#[test]
fn peek_gives_the_earliest() {
    let mut tasks = TaskTable::new();
    let mut rq = RunQueue::new();
    let _late = put(&mut tasks, &mut rq, 0, 300);
    let early = put(&mut tasks, &mut rq, 0, 100);
    let _mid = put(&mut tasks, &mut rq, 0, 200);
    assert_eq!(rq.peek(), Some((early, VRuntime::new(100))));
    assert_eq!(rq.ready_len(), 3);
}

#[test]
fn peek_orders_across_the_wrap() {
    let mut tasks = TaskTable::new();
    let mut rq = RunQueue::new();
    let _after = put(&mut tasks, &mut rq, 0, 5);
    let before = put(&mut tasks, &mut rq, 0, u64::MAX - 5);
    assert_eq!(rq.peek(), Some((before, VRuntime::new(u64::MAX - 5))));
}

#[test]
fn pop_picks_the_earliest_and_makes_it_current() {
    let mut tasks = TaskTable::new();
    let mut rq = RunQueue::new();
    let late = put(&mut tasks, &mut rq, 0, 300);
    let early = put(&mut tasks, &mut rq, 0, 100);
    let next = rq.pop_task_to_run(&mut tasks, 1_000).unwrap();
    assert_eq!(next, early);
    assert_eq!(rq.current_task(), Some(early));
    assert!(rq.is_current_task(early));
    assert!(!rq.is_current_task(late));
    assert_eq!(rq.ready_len(), 1);
    assert_eq!(rq.ready_vruntime(early), None);
    assert_eq!(rq.nr_running(), 2);
    assert_eq!(rq.load().weight(), 2048);
    let record = tasks.get(early).unwrap();
    assert_eq!(record.exec_start, 1_000);
    assert!(record.on_rq);
}

#[test]
fn pop_with_one_task_takes_it() {
    let mut tasks = TaskTable::new();
    let mut rq = RunQueue::new();
    let only = put(&mut tasks, &mut rq, 19, 0);
    assert_eq!(rq.pop_task_to_run(&mut tasks, 5), Some(only));
    requeue(&mut tasks, &mut rq, only);
    assert_eq!(rq.nr_running(), 1);
    assert_eq!(rq.pop_task_to_run(&mut tasks, 9), Some(only));
    assert_eq!(tasks.get(only).unwrap().exec_start, 9);
}

#[test]
fn pop_does_not_preempt_below_the_minimal_granularity() {
    let mut tasks = TaskTable::new();
    let mut rq = RunQueue::new();
    let a = put(&mut tasks, &mut rq, 0, 0);
    let b = put(&mut tasks, &mut rq, 0, 1_000);
    assert_eq!(rq.pop_task_to_run(&mut tasks, 0), Some(a));
    // The running task has run just under the granularity since it was
    // picked, and is a long way ahead of the other.
    let mut record = tasks.get(a).unwrap();
    record.prev_sum_exec_runtime = 10_000;
    record.sum_exec_runtime = 10_000 + SCHED_MIN_GRANULARITY - 1;
    record.exec_start = record.sum_exec_runtime;
    record.vruntime = VRuntime::new(1_000_000_000_000);
    assert!(tasks.set(a, record));
    requeue(&mut tasks, &mut rq, a);
    let next = rq.pop_task_to_run(&mut tasks, 2_000_000).unwrap();
    assert_eq!(next, a);
    assert_eq!(rq.current_task(), Some(a));
    assert_eq!(rq.ready_vruntime(b), Some(VRuntime::new(1_000)));
    // The slice is not begun anew.
    assert_eq!(tasks.get(a).unwrap().prev_sum_exec_runtime, 10_000);
    assert_eq!(tasks.get(a).unwrap().exec_start, 2_000_000);
}

#[test]
fn pop_preempts_a_task_that_is_far_ahead() {
    let mut tasks = TaskTable::new();
    let mut rq = RunQueue::new();
    let a = put(&mut tasks, &mut rq, 0, 0);
    let b = put(&mut tasks, &mut rq, 0, 1_000);
    assert_eq!(rq.pop_task_to_run(&mut tasks, 0), Some(a));
    // At the granularity, within the slice of 3 ms, ahead by more than the
    // slice.
    let mut record = tasks.get(a).unwrap();
    record.sum_exec_runtime = SCHED_MIN_GRANULARITY;
    record.exec_start = SCHED_MIN_GRANULARITY;
    record.vruntime = VRuntime::new(1_000 + 3_000_001);
    assert!(tasks.set(a, record));
    requeue(&mut tasks, &mut rq, a);
    assert_eq!(rq.sched_slice(&record), 3_000_000);
    let next = rq.pop_task_to_run(&mut tasks, 2_000_000).unwrap();
    assert_eq!(next, b);
    assert_eq!(rq.current_task(), Some(b));
    assert_eq!(rq.ready_vruntime(a), Some(VRuntime::new(3_001_001)));
    assert_eq!(rq.nr_running(), 2);
    // The slice of the task that takes over begins.
    assert_eq!(tasks.get(b).unwrap().prev_sum_exec_runtime, 0);
    assert_eq!(tasks.get(b).unwrap().exec_start, 2_000_000);
}

#[test]
fn pop_keeps_a_task_that_is_ahead_by_its_slice_only() {
    let mut tasks = TaskTable::new();
    let mut rq = RunQueue::new();
    let a = put(&mut tasks, &mut rq, 0, 0);
    let _b = put(&mut tasks, &mut rq, 0, 1_000);
    assert_eq!(rq.pop_task_to_run(&mut tasks, 0), Some(a));
    let mut record = tasks.get(a).unwrap();
    record.sum_exec_runtime = SCHED_MIN_GRANULARITY;
    record.exec_start = SCHED_MIN_GRANULARITY;
    record.vruntime = VRuntime::new(1_000 + 3_000_000);
    assert!(tasks.set(a, record));
    requeue(&mut tasks, &mut rq, a);
    assert_eq!(rq.pop_task_to_run(&mut tasks, 2_000_000), Some(a));
}

#[test]
fn pop_preempts_a_task_that_has_used_its_slice() {
    let mut tasks = TaskTable::new();
    let mut rq = RunQueue::new();
    let a = put(&mut tasks, &mut rq, 0, 0);
    let b = put(&mut tasks, &mut rq, 0, 1_000_000_000);
    assert_eq!(rq.pop_task_to_run(&mut tasks, 0), Some(a));
    let mut record = tasks.get(a).unwrap();
    record.sum_exec_runtime = 3_000_001;
    record.exec_start = 3_000_001;
    assert!(tasks.set(a, record));
    requeue(&mut tasks, &mut rq, a);
    // The other task is picked although it is far behind in line.
    assert_eq!(rq.pop_task_to_run(&mut tasks, 4_000_000), Some(b));
}

#[test]
fn pop_retires_a_running_task_that_is_not_ready_again() {
    let mut tasks = TaskTable::new();
    let mut rq = RunQueue::new();
    let a = put(&mut tasks, &mut rq, 0, 0);
    let b = put(&mut tasks, &mut rq, 5, 10);
    assert_eq!(rq.pop_task_to_run(&mut tasks, 0), Some(a));
    assert_eq!(rq.pop_task_to_run(&mut tasks, 1), Some(b));
    assert_eq!(rq.current_task(), Some(b));
    assert_eq!(rq.nr_running(), 1);
    assert_eq!(rq.load().weight(), 335);
    assert!(!tasks.get(a).unwrap().on_rq);
    assert_eq!(rq.ready_len(), 0);
}

#[test]
fn pop_on_an_empty_queue_gives_nothing() {
    let mut tasks = TaskTable::new();
    let mut rq = RunQueue::new();
    assert_eq!(rq.pop_task_to_run(&mut tasks, 0), None);
    let a = put(&mut tasks, &mut rq, 0, 0);
    assert_eq!(rq.pop_task_to_run(&mut tasks, 0), Some(a));
    // The running task is not ready again: nothing is, and nothing changes.
    assert_eq!(rq.pop_task_to_run(&mut tasks, 1), None);
    assert_eq!(rq.current_task(), Some(a));
    assert_eq!(rq.nr_running(), 1);
    assert!(tasks.get(a).unwrap().on_rq);
}

#[test]
fn push_task_to_ready_wakes_with_bounded_credit() {
    let mut tasks = TaskTable::new();
    let mut rq = RunQueue::new();
    let a = put(&mut tasks, &mut rq, 0, 10_000);
    let b = put(&mut tasks, &mut rq, 0, 50_000_000);
    rq.remove_task(&mut tasks, a);
    assert_eq!(rq.min_vruntime(), VRuntime::new(50_000_000));
    rq.push_task_to_ready(&mut tasks, a, 6_000_000);
    assert_eq!(tasks.get(a).unwrap().vruntime, VRuntime::new(44_000_000));
    assert!(tasks.get(a).unwrap().on_rq);
    assert_eq!(rq.ready_vruntime(a), Some(VRuntime::new(44_000_000)));
    assert_eq!(rq.nr_running(), 2);
    assert_eq!(rq.load().weight(), 2048);
    // A task that is ahead of the floor keeps its virtual runtime.
    rq.remove_task(&mut tasks, b);
    rq.push_task_to_ready(&mut tasks, b, 6_000_000);
    assert_eq!(tasks.get(b).unwrap().vruntime, VRuntime::new(50_000_000));
    // A task that is not in the table is not put in.
    rq.push_task_to_ready(&mut tasks, 99, 6_000_000);
    assert_eq!(rq.nr_running(), 2);
    assert_eq!(rq.ready_len(), 2);
}

#[test]
fn remove_task_uncounts_a_ready_task() {
    let mut tasks = TaskTable::new();
    let mut rq = RunQueue::new();
    let a = put(&mut tasks, &mut rq, 0, 100);
    let b = put(&mut tasks, &mut rq, 5, 200);
    rq.remove_task(&mut tasks, a);
    assert_eq!(rq.nr_running(), 1);
    assert_eq!(rq.load().weight(), 335);
    assert_eq!(rq.ready_vruntime(a), None);
    assert_eq!(rq.ready_vruntime(b), Some(VRuntime::new(200)));
    assert!(!tasks.get(a).unwrap().on_rq);
    assert!(tasks.get(b).unwrap().on_rq);
    // The floor comes up to the earliest that is left.
    assert_eq!(rq.min_vruntime(), VRuntime::new(200));
    // Removing it again changes nothing.
    rq.remove_task(&mut tasks, a);
    assert_eq!(rq.nr_running(), 1);
    assert_eq!(rq.load().weight(), 335);
}

#[test]
fn remove_task_stops_the_running_task() {
    let mut tasks = TaskTable::new();
    let mut rq = RunQueue::new();
    let a = put(&mut tasks, &mut rq, 0, 100);
    let _b = put(&mut tasks, &mut rq, 0, 200);
    assert_eq!(rq.pop_task_to_run(&mut tasks, 0), Some(a));
    rq.remove_task(&mut tasks, a);
    assert_eq!(rq.current_task(), None);
    assert_eq!(rq.nr_running(), 1);
    assert_eq!(rq.load().weight(), 1024);
    assert!(!tasks.get(a).unwrap().on_rq);
}

#[test]
fn remove_task_of_an_unknown_task_does_nothing() {
    let mut tasks = TaskTable::new();
    let mut rq = RunQueue::new();
    let _a = put(&mut tasks, &mut rq, 0, 100);
    rq.remove_task(&mut tasks, 77);
    assert_eq!(rq.nr_running(), 1);
    assert_eq!(rq.min_vruntime(), VRuntime::new(0));
}

#[test]
fn task_tick_charges_and_requeues() {
    let mut tasks = TaskTable::new();
    let mut rq = RunQueue::new();
    let a = put(&mut tasks, &mut rq, 5, 100);
    let b = put(&mut tasks, &mut rq, 0, 5_000_000);
    assert_eq!(rq.pop_task_to_run(&mut tasks, 1_000), Some(a));
    requeue(&mut tasks, &mut rq, a);
    rq.task_tick(&mut tasks, a, 1_001_000);
    let record = tasks.get(a).unwrap();
    assert_eq!(record.sum_exec_runtime, 1_000_000);
    assert_eq!(record.exec_start, 1_001_000);
    assert_eq!(record.vruntime, VRuntime::new(100 + 3_056_716));
    assert_eq!(rq.ready_vruntime(a), Some(record.vruntime));
    assert_eq!(rq.ready_vruntime(b), Some(VRuntime::new(5_000_000)));
    assert_eq!(rq.min_vruntime(), VRuntime::new(3_056_816));
    assert_eq!(rq.nr_running(), 2);
}

#[test]
fn floor_never_goes_back() {
    let mut tasks = TaskTable::new();
    let mut rq = RunQueue::new();
    let a = put(&mut tasks, &mut rq, 0, 1_000);
    rq.update_min_vruntime(&tasks);
    assert_eq!(rq.min_vruntime(), VRuntime::new(1_000));
    // A task that comes in behind the floor does not pull it back.
    let b = put(&mut tasks, &mut rq, 0, 10);
    rq.update_min_vruntime(&tasks);
    assert_eq!(rq.min_vruntime(), VRuntime::new(1_000));
    rq.remove_task(&mut tasks, b);
    assert_eq!(rq.min_vruntime(), VRuntime::new(1_000));
    rq.remove_task(&mut tasks, a);
    assert_eq!(rq.min_vruntime(), VRuntime::new(1_000));
}

#[test]
fn floor_follows_the_earlier_of_running_and_ready() {
    let mut tasks = TaskTable::new();
    let mut rq = RunQueue::new();
    let a = put(&mut tasks, &mut rq, 0, 400);
    let _b = put(&mut tasks, &mut rq, 0, 700);
    assert_eq!(rq.pop_task_to_run(&mut tasks, 0), Some(a));
    rq.update_min_vruntime(&tasks);
    assert_eq!(rq.min_vruntime(), VRuntime::new(400));
    let mut record = tasks.get(a).unwrap();
    record.vruntime = VRuntime::new(900);
    assert!(tasks.set(a, record));
    rq.update_min_vruntime(&tasks);
    assert_eq!(rq.min_vruntime(), VRuntime::new(700));
}

#[test]
fn slices_are_shares_of_the_period() {
    let mut tasks = TaskTable::new();
    let mut rq = RunQueue::new();
    let a = put(&mut tasks, &mut rq, 0, 0);
    let record = tasks.get(a).unwrap();
    assert_eq!(rq.sched_slice(&record), 6_000_000);
    assert_eq!(rq.sched_vslice(&record), 6_000_000);
    // A task that is about to join is counted in.
    let newcomer = SchedTask::new(9, 0, 0, VRuntime::new(0));
    assert_eq!(rq.sched_slice(&newcomer), 3_000_000);
    let nice = SchedTask::new(9, 5, 0, VRuntime::new(0));
    assert_eq!(rq.sched_slice(&nice), 1_479_028);
    assert_eq!(rq.sched_vslice(&nice), 4_520_968);
}

#[test]
fn rekey_moves_a_ready_task_only() {
    let mut tasks = TaskTable::new();
    let mut rq = RunQueue::new();
    let a = put(&mut tasks, &mut rq, 0, 100);
    rq.rekey(a, VRuntime::new(7));
    assert_eq!(rq.ready_vruntime(a), Some(VRuntime::new(7)));
    rq.rekey(55, VRuntime::new(7));
    assert_eq!(rq.ready_vruntime(55), None);
    assert_eq!(rq.ready_len(), 1);
}

#[test]
fn steal_takes_half_the_earliest() {
    let mut tasks = TaskTable::new();
    let mut donor = RunQueue::new();
    let mut thief = RunQueue::new();
    let mut tids = Vec::new();
    for i in 0..5u64 {
        tids.push(put(&mut tasks, &mut donor, 0, 1_000 + 100 * i));
    }
    donor.update_min_vruntime(&tasks);
    assert_eq!(donor.min_vruntime(), VRuntime::new(1_000));
    let stolen = thief.steal_from(&mut donor, &mut tasks, 1);
    assert_eq!(stolen, 2);
    assert_eq!(donor.nr_running(), 3);
    assert_eq!(thief.nr_running(), 2);
    assert_eq!(donor.load().weight(), 3 * 1024);
    assert_eq!(thief.load().weight(), 2 * 1024);
    assert_eq!(donor.ready_len(), 3);
    assert_eq!(thief.ready_len(), 2);
    // The two earliest went, rebased from the donor's floor to the thief's.
    assert_eq!(thief.ready_vruntime(tids[0]), Some(VRuntime::new(0)));
    assert_eq!(thief.ready_vruntime(tids[1]), Some(VRuntime::new(100)));
    assert_eq!(donor.ready_vruntime(tids[0]), None);
    assert_eq!(donor.ready_vruntime(tids[1]), None);
    assert_eq!(donor.ready_vruntime(tids[2]), Some(VRuntime::new(1_200)));
    assert_eq!(tasks.get(tids[0]).unwrap().run_queue, 1);
    assert_eq!(tasks.get(tids[0]).unwrap().vruntime, VRuntime::new(0));
    assert_eq!(tasks.get(tids[1]).unwrap().vruntime, VRuntime::new(100));
    assert_eq!(tasks.get(tids[2]).unwrap().run_queue, 0);
    assert_eq!(tasks.get(tids[2]).unwrap().vruntime, VRuntime::new(1_200));
    assert_eq!(donor.min_vruntime(), VRuntime::new(1_000));
    assert_eq!(thief.min_vruntime(), VRuntime::new(0));
}

#[test]
fn steal_passes_over_the_running_task() {
    let mut tasks = TaskTable::new();
    let mut donor = RunQueue::new();
    let mut thief = RunQueue::new();
    let a = put(&mut tasks, &mut donor, 0, 10);
    let b = put(&mut tasks, &mut donor, 0, 20);
    let c = put(&mut tasks, &mut donor, 0, 30);
    let d = put(&mut tasks, &mut donor, 0, 40);
    assert_eq!(donor.pop_task_to_run(&mut tasks, 0), Some(a));
    requeue(&mut tasks, &mut donor, a);
    assert_eq!(donor.ready_len(), 4);
    let stolen = thief.steal_from(&mut donor, &mut tasks, 1);
    assert_eq!(stolen, 1);
    assert_eq!(donor.current_task(), Some(a));
    assert_eq!(donor.ready_vruntime(a), Some(VRuntime::new(10)));
    assert_eq!(tasks.get(a).unwrap().run_queue, 0);
    assert_eq!(thief.ready_vruntime(a), None);
    assert!(thief.ready_vruntime(b).is_some());
    assert!(donor.ready_vruntime(c).is_some());
    assert!(donor.ready_vruntime(d).is_some());
    assert_eq!(donor.nr_running() + thief.nr_running(), 4);
    assert_eq!(donor.nr_running(), 3);
}

#[test]
fn steal_from_an_empty_queue_takes_nothing() {
    let mut tasks = TaskTable::new();
    let mut donor = RunQueue::new();
    let mut thief = RunQueue::new();
    assert_eq!(thief.steal_from(&mut donor, &mut tasks, 1), 0);
    let only = put(&mut tasks, &mut donor, 0, 10);
    assert_eq!(thief.steal_from(&mut donor, &mut tasks, 1), 0);
    assert_eq!(donor.ready_vruntime(only), Some(VRuntime::new(10)));
}

#[test]
fn task_table_keeps_records_by_identity() {
    let mut tasks = TaskTable::new();
    assert_eq!(tasks.len(), 0);
    assert!(tasks.get(0).is_none());
    let first = tasks.next_vacant();
    let a = tasks.insert(SchedTask::new(first, 0, 0, VRuntime::new(1)));
    assert_eq!(a, first);
    let b = tasks.insert(SchedTask::new(tasks.next_vacant(), 5, 1, VRuntime::new(2)));
    assert!(a != b);
    assert_eq!(tasks.len(), 2);
    assert_eq!(tasks.get(a).unwrap().vruntime, VRuntime::new(1));
    assert_eq!(tasks.get(b).unwrap().nice, 5);
    let mut record = tasks.get(b).unwrap();
    record.vruntime = VRuntime::new(99);
    assert!(tasks.set(b, record));
    assert_eq!(tasks.get(b).unwrap().vruntime, VRuntime::new(99));
    assert_eq!(tasks.get(a).unwrap().vruntime, VRuntime::new(1));
    assert!(!tasks.set(17, record));
    assert_eq!(tasks.len(), 2);
    let removed = tasks.remove(a).unwrap();
    assert_eq!(removed.vruntime, VRuntime::new(1));
    assert!(tasks.get(a).is_none());
    assert!(tasks.remove(a).is_none());
    assert_eq!(tasks.len(), 1);
    // The vacant slot is used again.
    assert_eq!(tasks.next_vacant(), a);
    assert_eq!(tasks.insert(record), a);
}

#[test]
fn queue_agrees_with_a_plain_model() {
    let mut tasks = TaskTable::new();
    let mut rq = RunQueue::new();
    let mut model: Vec<(Tid, u64)> = Vec::new();
    let mut state: u64 = 0x2545_f491_4f6c_dd1d;
    let mut draw = move || {
        state ^= state << 13;
        state ^= state >> 7;
        state ^= state << 17;
        state
    };
    for _ in 0..4_000 {
        match draw() % 4 {
            0 => {
                let vruntime = draw() % 1_000_000;
                let tid = put(&mut tasks, &mut rq, 0, vruntime);
                model.push((tid, vruntime));
            },
            1 => {
                if !model.is_empty() {
                    let at = (draw() % model.len() as u64) as usize;
                    let (tid, _) = model.swap_remove(at);
                    rq.remove_task(&mut tasks, tid);
                    assert!(tasks.remove(tid).is_some());
                }
            },
            2 => {
                if !model.is_empty() {
                    let at = (draw() % model.len() as u64) as usize;
                    let vruntime = draw() % 1_000_000;
                    let tid = model[at].0;
                    let mut record = tasks.get(tid).unwrap();
                    record.vruntime = VRuntime::new(vruntime);
                    assert!(tasks.set(tid, record));
                    rq.rekey(tid, record.vruntime);
                    model[at].1 = vruntime;
                }
            },
            _ => {},
        }
        assert_eq!(rq.ready_len(), model.len());
        assert_eq!(rq.nr_running(), model.len());
        assert_eq!(rq.load().weight(), 1024 * model.len() as u64);
        assert_eq!(tasks.len(), model.len());
        match rq.peek() {
            Some((tid, vruntime)) => {
                let least = model.iter().map(|(_, v)| *v).min().unwrap();
                assert_eq!(vruntime, VRuntime::new(least));
                assert!(model.contains(&(tid, least)));
            },
            None => assert!(model.is_empty()),
        }
        for (tid, vruntime) in &model {
            assert_eq!(rq.ready_vruntime(*tid), Some(VRuntime::new(*vruntime)));
        }
    }
}
