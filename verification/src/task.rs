//! The scheduling entity: what the scheduler records of one task.

use crate::vruntime::VRuntime;
use crate::weight::{
    calc_delta, calc_delta_spec, inv_weight_of, lemma_delta_excess_bound, nice_to_weight,
    valid_nice, weight_of_nice, LoadWeight, NICE_0_WEIGHT,
};
use vstd::prelude::*;

verus! {

/// The identity of a task: its index in the table of active tasks.
pub type Tid = usize;

/// What the scheduler records of one task.
#[derive(Clone, Copy, Debug)]
pub struct SchedTask {
    /// The identity of the task.
    pub tid: Tid,
    /// The weight that belongs to `nice`.
    pub load: LoadWeight,
    /// The niceness, from -20 (most favoured) to 19.
    pub nice: isize,
    /// Whether the task is ready or running on its run queue.
    pub on_rq: bool,
    /// The CPU whose run queue owns the task.
    pub run_queue: usize,
    /// When the task's current run began, in nanoseconds.
    pub exec_start: u64,
    /// The time that the task has run in all.
    pub sum_exec_runtime: u64,
    /// `sum_exec_runtime` as it was when the task was last picked.
    pub prev_sum_exec_runtime: u64,
    /// The virtual runtime by which the task is ordered.
    pub vruntime: VRuntime,
}

impl SchedTask {
    /// The niceness is valid, the load is the weight of the niceness, and the
    /// running times are in step with the clock.
    pub open spec fn wf(self) -> bool {
        &&& valid_nice(self.nice as int)
        &&& self.load == LoadWeight::of(weight_of_nice(self.nice as int))
        &&& self.load@ == weight_of_nice(self.nice as int)
        &&& self.prev_sum_exec_runtime <= self.sum_exec_runtime
        &&& self.sum_exec_runtime <= self.exec_start
    }

    /// The weight of the task.
    pub open spec fn weight(self) -> nat {
        self.load@
    }

    /// A task that has not run yet.
    pub fn new(tid: Tid, nice: isize, run_queue: usize, vruntime: VRuntime) -> (task: SchedTask)
        requires
            valid_nice(nice as int),
        ensures
            task.wf(),
            task.tid == tid,
            task.nice == nice,
            !task.on_rq,
            task.run_queue == run_queue,
            task.exec_start == 0,
            task.sum_exec_runtime == 0,
            task.prev_sum_exec_runtime == 0,
            task.vruntime == vruntime,
    {
        SchedTask {
            tid,
            load: LoadWeight::new(nice_to_weight(nice)),
            nice,
            on_rq: false,
            run_queue,
            exec_start: 0,
            sum_exec_runtime: 0,
            prev_sum_exec_runtime: 0,
            vruntime,
        }
    }

    /// The virtual time that `delta_exec` of real time is worth to a task of
    /// weight `weight`: `delta_exec` itself at the weight of nice 0, and
    /// otherwise `delta_exec * NICE_0_WEIGHT / weight` in fixed point.
    pub open spec fn delta_fair_of(weight: nat, delta_exec: u64) -> u64 {
        if weight == NICE_0_WEIGHT {
            delta_exec
        } else {
            calc_delta_spec(delta_exec, NICE_0_WEIGHT, inv_weight_of(weight as u64))
        }
    }

    /// The virtual time that `delta_exec` of real time is worth to this
    /// task.
    pub open spec fn spec_delta_fair(self, delta_exec: u64) -> u64 {
        Self::delta_fair_of(self.load@, delta_exec)
    }

    /// The virtual time that `delta_exec` of real time is worth to this
    /// task.
    pub fn delta_fair(&self, delta_exec: u64) -> (delta: u64)
        ensures
            delta == self.spec_delta_fair(delta_exec),
    {
        if self.load.weight() == NICE_0_WEIGHT {
            delta_exec
        } else {
            proof {
                lemma_delta_excess_bound(NICE_0_WEIGHT, inv_weight_of(self.load@ as u64));
            }
            calc_delta(delta_exec, NICE_0_WEIGHT, self.load)
        }
    }

    /// The task after it was charged at `now` for the time since its run
    /// began: the time is added to `sum_exec_runtime`, its worth to
    /// `vruntime`, and the next run begins at `now`.
    pub open spec fn spec_tick(self, now: u64) -> SchedTask {
        SchedTask {
            exec_start: now,
            sum_exec_runtime: (self.sum_exec_runtime + (now - self.exec_start)) as u64,
            vruntime: self.vruntime.spec_advance(
                self.spec_delta_fair((now - self.exec_start) as u64),
            ),
            ..self
        }
    }

    /// Charges the task for the time since its run began.
    pub fn tick(&mut self, now: u64)
        requires
            old(self).wf(),
            old(self).exec_start <= now,
        ensures
            *final(self) == old(self).spec_tick(now),
            final(self).wf(),
            final(self).sum_exec_runtime == old(self).sum_exec_runtime + (now - old(
                self,
            ).exec_start),
    {
        let delta_exec: u64 = now - self.exec_start;
        self.exec_start = now;
        self.sum_exec_runtime = self.sum_exec_runtime + delta_exec;
        let fair: u64 = self.delta_fair(delta_exec);
        self.vruntime = self.vruntime.advance(fair);
    }
}

} // verus!
