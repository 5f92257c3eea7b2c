//! The run queue of one CPU: the tasks that are ready to run, ordered by
//! virtual runtime, the task that runs, and the load of them all.

use crate::queue::{
    is_greatest, queue_change_priority, queue_contents, queue_get, queue_len, queue_new,
    queue_peek, queue_push, queue_remove,
};
use crate::task::{SchedTask, Tid};
use crate::tasks::TaskTable;
use crate::vruntime::VRuntime;
use crate::weight::{
    calc_delta, calc_delta_spec, inv_weight_of, lemma_delta_excess_bound, sched_period,
    sched_period_spec, LoadWeight, SCHED_MIN_GRANULARITY,
};
use ahash::RandomState;
use priority_queue::PriorityQueue;
use vstd::prelude::*;

verus! {

/// The sum of the weights of a finite map.
pub open spec fn total_weight(weights: Map<Tid, nat>) -> nat
    decreases weights.dom().len(),
    when weights.dom().finite()
{
    if weights.dom().len() == 0 {
        0
    } else {
        let tid = weights.dom().choose();
        weights[tid] + total_weight(weights.remove(tid))
    }
}

/// The sum of the weights is the weight of any one task and the sum of the
/// others.
pub proof fn lemma_total_weight_remove(weights: Map<Tid, nat>, tid: Tid)
    requires
        weights.dom().finite(),
        weights.contains_key(tid),
    ensures
        total_weight(weights) == weights[tid] + total_weight(weights.remove(tid)),
    decreases weights.dom().len(),
{
    let chosen = weights.dom().choose();
    if chosen != tid {
        lemma_total_weight_remove(weights.remove(chosen), tid);
        lemma_total_weight_remove(weights.remove(tid), chosen);
        assert(weights.remove(chosen).remove(tid) =~= weights.remove(tid).remove(chosen));
    }
}

/// A task that joins adds its weight to the sum.
pub proof fn lemma_total_weight_insert(weights: Map<Tid, nat>, tid: Tid, weight: nat)
    requires
        weights.dom().finite(),
        !weights.contains_key(tid),
    ensures
        total_weight(weights.insert(tid, weight)) == total_weight(weights) + weight,
{
    lemma_total_weight_remove(weights.insert(tid, weight), tid);
    assert(weights.insert(tid, weight).remove(tid) =~= weights);
}

/// The sum of weights that are each at most `cap` is at most `cap` for each
/// task.
pub proof fn lemma_total_weight_bound(weights: Map<Tid, nat>, cap: nat)
    requires
        weights.dom().finite(),
        forall|tid: Tid| #[trigger] weights.contains_key(tid) ==> weights[tid] <= cap,
    ensures
        total_weight(weights) <= cap * weights.dom().len(),
    decreases weights.dom().len(),
{
    if weights.dom().len() != 0 {
        let tid = weights.dom().choose();
        lemma_total_weight_bound(weights.remove(tid), cap);
        assert(cap * weights.dom().len() == cap * weights.remove(tid).dom().len() + cap)
            by (nonlinear_arith)
            requires
                weights.dom().len() == weights.remove(tid).dom().len() + 1,
        ;
    }
}

/// The greatest key of a ready set, or `None` for an empty one.
pub open spec fn top_key(ready: Map<Tid, i64>) -> Option<i64> {
    if exists|tid: Tid, key: i64| is_greatest(ready, (tid, key)) {
        let (tid, key) = choose|tid: Tid, key: i64| is_greatest(ready, (tid, key));
        Some(key)
    } else {
        None
    }
}

/// Any task with the greatest key has the key that `top_key` gives.
pub proof fn lemma_top_key(ready: Map<Tid, i64>, tid: Tid, key: i64)
    requires
        is_greatest(ready, (tid, key)),
    ensures
        top_key(ready) == Some(key),
{
    let (t, k) = choose|t: Tid, k: i64| is_greatest(ready, (t, k));
    assert(is_greatest(ready, (t, k)));
    assert(ready.contains_key(t));
    assert(ready.contains_key(tid));
}

/// An empty ready set has no greatest key.
pub proof fn lemma_top_key_empty(ready: Map<Tid, i64>)
    requires
        ready.dom() =~= Set::empty(),
    ensures
        top_key(ready) is None,
{
    if exists|tid: Tid, key: i64| is_greatest(ready, (tid, key)) {
        let (t, k) = choose|t: Tid, k: i64| is_greatest(ready, (t, k));
        assert(ready.dom().contains(t));
    }
}

/// What a run queue holds.
#[verifier::ext_equal]
pub struct RunQueueView {
    /// The key of each ready task: `VRuntime::spec_key` of the virtual
    /// runtime with which it was put in.
    pub ready: Map<Tid, i64>,
    /// The task that runs.
    pub current: Option<Tid>,
    /// The sum of the weights of the runnable tasks.
    pub load: nat,
    /// The floor under the virtual runtimes of the queue.
    pub min_vruntime: VRuntime,
    /// The number of runnable tasks.
    pub nr_running: nat,
    /// The weight with which each runnable task is counted in `load`.
    pub weights: Map<Tid, nat>,
}

impl RunQueueView {
    /// The runnable tasks: those that are ready and the one that runs.
    pub open spec fn runnable(self) -> Set<Tid> {
        match self.current {
            Some(tid) => self.ready.dom().insert(tid),
            None => self.ready.dom(),
        }
    }

    /// Whether `tid` is the task that runs.
    pub open spec fn is_current(self, tid: Tid) -> bool {
        self.current == Some(tid)
    }

    /// Every runnable task is counted once in `nr_running` and with its
    /// weight in `load`, and nothing else is.
    pub open spec fn wf(self) -> bool {
        &&& self.ready.dom().finite()
        &&& self.weights.dom() == self.runnable()
        &&& self.nr_running == self.runnable().len()
        &&& self.load == total_weight(self.weights)
    }

    /// An empty queue.
    pub open spec fn empty() -> RunQueueView {
        RunQueueView {
            ready: Map::empty(),
            current: None,
            load: 0,
            min_vruntime: VRuntime(0),
            nr_running: 0,
            weights: Map::empty(),
        }
    }

    /// The queue after `tid` was put among the ready tasks with `key`. A
    /// task that was not runnable before is counted with `weight`.
    pub open spec fn inserted(self, tid: Tid, key: i64, weight: nat) -> RunQueueView {
        if self.runnable().contains(tid) {
            RunQueueView { ready: self.ready.insert(tid, key), ..self }
        } else {
            RunQueueView {
                ready: self.ready.insert(tid, key),
                load: self.load + weight,
                nr_running: self.nr_running + 1,
                weights: self.weights.insert(tid, weight),
                ..self
            }
        }
    }

    /// The queue after `tid` left it, the floor apart: the task is neither
    /// ready nor running, and is no longer counted.
    pub open spec fn removed(self, tid: Tid) -> RunQueueView {
        if self.runnable().contains(tid) {
            RunQueueView {
                ready: self.ready.remove(tid),
                current: if self.is_current(tid) {
                    None
                } else {
                    self.current
                },
                load: (self.load - self.weights[tid]) as nat,
                nr_running: (self.nr_running - 1) as nat,
                weights: self.weights.remove(tid),
                ..self
            }
        } else {
            self
        }
    }

    /// The queue with another floor.
    pub open spec fn with_min_vruntime(self, min_vruntime: VRuntime) -> RunQueueView {
        RunQueueView { min_vruntime, ..self }
    }

    /// The earliest virtual runtime among the running task, if it is on the
    /// queue, and the ready tasks; `None` where there is neither.
    pub open spec fn earliest(self, current: Option<SchedTask>) -> Option<VRuntime> {
        let running = match current {
            Some(task) => if task.on_rq {
                Some(task.vruntime)
            } else {
                None
            },
            None => None,
        };
        match (running, top_key(self.ready)) {
            (Some(a), Some(key)) => Some(a.spec_min(VRuntime::spec_from_key(key))),
            (Some(a), None) => Some(a),
            (None, Some(key)) => Some(VRuntime::spec_from_key(key)),
            (None, None) => None,
        }
    }

    /// The floor after it was brought up to date: the later of the floor and
    /// the earliest virtual runtime on the queue, so that it never goes
    /// back.
    pub open spec fn advanced_floor(self, current: Option<SchedTask>) -> VRuntime {
        match self.earliest(current) {
            Some(v) => self.min_vruntime.spec_max(v),
            None => self.min_vruntime,
        }
    }

    /// The record of the running task in a table of tasks.
    pub open spec fn current_in(self, tasks: Map<Tid, SchedTask>) -> Option<SchedTask> {
        match self.current {
            Some(tid) => if tasks.contains_key(tid) {
                Some(tasks[tid])
            } else {
                None
            },
            None => None,
        }
    }

    /// The table of tasks has every runnable task of the queue, well-formed,
    /// on a run queue, with the weight that the queue counts and, if it is
    /// ready, under the key of its virtual runtime.
    pub open spec fn agrees(self, tasks: Map<Tid, SchedTask>) -> bool {
        &&& forall|tid: Tid| #[trigger]
            self.weights.contains_key(tid) ==> {
                &&& tasks.contains_key(tid)
                &&& tasks[tid].wf()
                &&& tasks[tid].on_rq
                &&& tasks[tid].load@ == self.weights[tid]
            }
        &&& forall|tid: Tid| #[trigger]
            self.ready.contains_key(tid) ==> tasks.contains_key(tid) && self.ready[tid]
                == tasks[tid].vruntime.spec_key()
    }
}

/// Counting a task in or out keeps a queue well-formed.
pub proof fn lemma_wf_steps(q: RunQueueView, tid: Tid, key: i64, weight: nat)
    requires
        q.wf(),
    ensures
        q.inserted(tid, key, weight).wf(),
        q.removed(tid).wf(),
        q.runnable().contains(tid) ==> q.nr_running >= 1 && q.load >= q.weights[tid],
        q.inserted(tid, key, weight).runnable() == q.runnable().insert(tid),
        q.removed(tid).runnable() == q.runnable().remove(tid),
{
    let a = q.inserted(tid, key, weight);
    assert(a.runnable() =~= q.runnable().insert(tid));
    assert(q.runnable().finite());
    if q.runnable().contains(tid) {
        assert(q.runnable().insert(tid) =~= q.runnable());
        lemma_total_weight_remove(q.weights, tid);
        let r = q.removed(tid);
        assert(r.runnable() =~= q.runnable().remove(tid));
        assert(r.weights.dom() =~= r.runnable());
    } else {
        lemma_total_weight_insert(q.weights, tid, weight);
        assert(a.weights.dom() =~= a.runnable());
        assert(q.runnable().remove(tid) =~= q.runnable());
    }
}

/// The run queue of one CPU.
pub struct RunQueue {
    ready_tasks: PriorityQueue<usize, i64, RandomState>,
    current_task: Option<Tid>,
    load: LoadWeight,
    min_vruntime: VRuntime,
    nr_running: usize,
    weights: Ghost<Map<Tid, nat>>,
}

impl View for RunQueue {
    type V = RunQueueView;

    closed spec fn view(&self) -> RunQueueView {
        RunQueueView {
            ready: queue_contents(self.ready_tasks),
            current: self.current_task,
            load: self.load@,
            min_vruntime: self.min_vruntime,
            nr_running: self.nr_running as nat,
            weights: self.weights@,
        }
    }
}

impl RunQueueView {
    /// The time slice that a task is owed in one period: the share of the
    /// period that its weight has in the load of the queue, the task itself
    /// counted in if it is not on the queue yet.
    pub open spec fn slice_of(self, task: SchedTask) -> u64 {
        let nr = if task.on_rq {
            self.nr_running
        } else {
            self.nr_running + 1
        };
        let load = if task.on_rq {
            self.load
        } else {
            self.load + task.load@
        };
        calc_delta_spec(
            sched_period_spec(nr) as u64,
            task.load@ as u64,
            inv_weight_of(load as u64),
        )
    }

    /// The time slice of a task in virtual time.
    pub open spec fn vslice_of(self, task: SchedTask) -> u64 {
        task.spec_delta_fair(self.slice_of(task))
    }

    /// Whether the numbers of the queue leave room to count `task` in and to
    /// compute its slice.
    pub open spec fn has_room_for(self, task: SchedTask) -> bool {
        if task.on_rq {
            self.nr_running * SCHED_MIN_GRANULARITY <= u64::MAX
        } else {
            &&& (self.nr_running + 1) * SCHED_MIN_GRANULARITY <= u64::MAX
            &&& self.nr_running + 1 <= usize::MAX
            &&& self.load + task.load@ <= u64::MAX
        }
    }
}

impl RunQueue {
    /// A queue without tasks, with its floor at 0.
    pub fn new() -> (rq: RunQueue)
        ensures
            rq@ == RunQueueView::empty(),
            rq@.wf(),
    {
        let rq = RunQueue {
            ready_tasks: queue_new(),
            current_task: None,
            load: LoadWeight::new(0),
            min_vruntime: VRuntime(0),
            nr_running: 0,
            weights: Ghost(Map::empty()),
        };
        proof {
            assert(rq@.runnable() =~= Set::empty());
            assert(rq@.weights.dom() =~= rq@.runnable());
        }
        rq
    }

    /// The number of runnable tasks.
    pub fn nr_running(&self) -> (n: usize)
        ensures
            n == self@.nr_running,
    {
        self.nr_running
    }

    /// The sum of the weights of the runnable tasks.
    pub fn load(&self) -> (load: LoadWeight)
        ensures
            load@ == self@.load,
    {
        self.load
    }

    /// The floor under the virtual runtimes of the queue.
    pub fn min_vruntime(&self) -> (v: VRuntime)
        ensures
            v == self@.min_vruntime,
    {
        self.min_vruntime
    }

    /// The task that runs.
    pub fn current_task(&self) -> (current: Option<Tid>)
        ensures
            current == self@.current,
    {
        self.current_task
    }

    /// Whether `tid` is the task that runs.
    pub fn is_current_task(&self, tid: Tid) -> (b: bool)
        ensures
            b == self@.is_current(tid),
    {
        match self.current_task {
            Some(current) => current == tid,
            None => false,
        }
    }

    /// The number of ready tasks.
    pub fn ready_len(&self) -> (n: usize)
        ensures
            n == self@.ready.dom().len(),
    {
        queue_len(&self.ready_tasks)
    }

    /// The virtual runtime under which a ready task is queued, or `None`
    /// for a task that is not ready.
    pub fn ready_vruntime(&self, tid: Tid) -> (v: Option<VRuntime>)
        ensures
            v == (if self@.ready.contains_key(tid) {
                Some(VRuntime::spec_from_key(self@.ready[tid]))
            } else {
                None
            }),
    {
        match queue_get(&self.ready_tasks, tid) {
            Some(key) => Some(VRuntime::from_key(key)),
            None => None,
        }
    }

    /// A ready task with the earliest virtual runtime, and that runtime, or
    /// `None` where no task is ready.
    pub fn peek(&self) -> (top: Option<(Tid, VRuntime)>)
        ensures
            top matches Some(entry) ==> is_greatest(self@.ready, (entry.0, entry.1.spec_key())),
            top is None <==> top_key(self@.ready) is None,
            top is None ==> self@.ready.dom() =~= Set::empty(),
    {
        match queue_peek(&self.ready_tasks) {
            Some((tid, key)) => {
                proof {
                    lemma_top_key(self@.ready, tid, key);
                }
                Some((tid, VRuntime::from_key(key)))
            },
            None => {
                proof {
                    lemma_top_key_empty(self@.ready);
                }
                None
            },
        }
    }

    /// The time slice that `task` is owed in one period.
    pub fn sched_slice(&self, task: &SchedTask) -> (slice: u64)
        requires
            task.wf(),
            self@.has_room_for(*task),
        ensures
            slice == self@.slice_of(*task),
    {
        let nr: usize = if task.on_rq {
            self.nr_running
        } else {
            self.nr_running + 1
        };
        let period: u64 = sched_period(nr);
        let load: LoadWeight = if !task.on_rq {
            self.load.plus(task.load)
        } else {
            self.load
        };
        proof {
            crate::weight::lemma_weight_bounds(task.nice as int);
            lemma_delta_excess_bound(task.load@ as u64, inv_weight_of(load@ as u64));
        }
        calc_delta(period, task.load.weight(), load)
    }

    /// The time slice of `task` in virtual time.
    pub fn sched_vslice(&self, task: &SchedTask) -> (vslice: u64)
        requires
            task.wf(),
            self@.has_room_for(*task),
        ensures
            vslice == self@.vslice_of(*task),
    {
        task.delta_fair(self.sched_slice(task))
    }

    /// Puts a task among the ready tasks, under the key of `vruntime`. A
    /// task that was neither ready nor running is counted in with `load`.
    pub fn insert_task(&mut self, tid: Tid, vruntime: VRuntime, load: LoadWeight)
        requires
            old(self)@.wf(),
            !old(self)@.runnable().contains(tid) ==> old(self)@.nr_running + 1 <= usize::MAX
                && old(self)@.load + load@ <= u64::MAX,
        ensures
            final(self)@ == old(self)@.inserted(tid, vruntime.spec_key(), load@),
            final(self)@.wf(),
    {
        proof {
            lemma_wf_steps(self@, tid, vruntime.spec_key(), load@);
        }
        let was_current: bool = self.is_current_task(tid);
        let replaced: Option<i64> = queue_push(&mut self.ready_tasks, tid, vruntime.key());
        if !was_current && replaced.is_none() {
            self.nr_running = self.nr_running + 1;
            self.load = self.load.plus(load);
            self.weights = Ghost(self.weights@.insert(tid, load@));
        }
    }

    /// Puts a task that became ready again among the ready tasks, and marks
    /// it as on its run queue. A task that slept gets credit for it, but no
    /// more than `thresh`: its virtual runtime is brought up to the floor
    /// less `thresh`. A task that is not in the table is not put in.
    pub fn push_task_to_ready(&mut self, tasks: &mut TaskTable, tid: Tid, thresh: u64)
        requires
            old(self)@.wf(),
            old(self)@.agrees(old(tasks)@),
            old(tasks)@.contains_key(tid) ==> old(tasks)@[tid].wf(),
            old(tasks)@.contains_key(tid) && !old(self)@.runnable().contains(tid) ==> old(
                self,
            )@.nr_running + 1 <= usize::MAX && old(self)@.load + old(tasks)@[tid].load@
                <= u64::MAX,
        ensures
            final(tasks)@ == old(self)@.tasks_after_push(old(tasks)@, tid, thresh),
            final(self)@ == old(self)@.after_push(old(tasks)@, tid, thresh),
            final(self)@.wf(),
            final(self)@.agrees(final(tasks)@),
    {
        match tasks.get(tid) {
            None => {},
            Some(task) => {
                let mut task = task;
                task.on_rq = true;
                task.vruntime = task.vruntime.max(self.min_vruntime.retreat(thresh));
                proof {
                    lemma_wf_steps(self@, tid, task.vruntime.spec_key(), task.load@);
                }
                self.insert_task(tid, task.vruntime, task.load);
                tasks.set(tid, task);
            },
        }
    }

    /// Brings the floor up to date: it becomes the earliest virtual runtime
    /// among the running task and the ready tasks, unless that is before
    /// the floor.
    pub fn update_min_vruntime(&mut self, tasks: &TaskTable)
        ensures
            final(self)@ == old(self)@.with_min_vruntime(
                old(self)@.advanced_floor(old(self)@.current_in(tasks@)),
            ),
    {
        let running: Option<VRuntime> = match self.current_task {
            Some(tid) => match tasks.get(tid) {
                Some(task) => if task.on_rq {
                    Some(task.vruntime)
                } else {
                    None
                },
                None => None,
            },
            None => None,
        };
        let top: Option<(Tid, VRuntime)> = self.peek();
        proof {
            if let Some(entry) = top {
                lemma_top_key(self@.ready, entry.0, entry.1.spec_key());
                crate::vruntime::lemma_key_round_trip(entry.1);
            }
        }
        let earliest: Option<VRuntime> = match (running, top) {
            (Some(a), Some(entry)) => Some(a.min(entry.1)),
            (Some(a), None) => Some(a),
            (None, Some(entry)) => Some(entry.1),
            (None, None) => None,
        };
        if let Some(v) = earliest {
            self.min_vruntime = self.min_vruntime.max(v);
        }
    }

    /// Takes a task out of the ready tasks, makes it stop running here if it
    /// runs, and no longer counts it. The record of the task and the floor
    /// are left as they are.
    fn detach(&mut self, tid: Tid, load: LoadWeight)
        requires
            old(self)@.wf(),
            old(self)@.runnable().contains(tid) ==> old(self)@.weights[tid] == load@,
        ensures
            final(self)@ == old(self)@.removed(tid),
            final(self)@.wf(),
    {
        proof {
            lemma_wf_steps(self@, tid, 0, 0);
        }
        let in_ready: bool = queue_remove(&mut self.ready_tasks, tid).is_some();
        let was_current: bool = self.is_current_task(tid);
        if was_current {
            self.current_task = None;
        }
        if in_ready || was_current {
            self.nr_running = self.nr_running - 1;
            self.load = self.load.minus(load);
            self.weights = Ghost(self.weights@.remove(tid));
        } else {
            assert(self@.ready =~= old(self)@.ready);
        }
    }

    /// Takes a task off the queue: it is marked as off its run queue, and
    /// if it was ready or running here it is neither any more, is no longer
    /// counted, and the floor is brought up to date.
    pub fn remove_task(&mut self, tasks: &mut TaskTable, tid: Tid)
        requires
            old(self)@.wf(),
            old(self)@.agrees(old(tasks)@),
        ensures
            final(tasks)@ == Self::tasks_after_remove(old(tasks)@, tid),
            final(self)@ == old(self)@.after_remove(final(tasks)@, tid),
            final(self)@.wf(),
            final(self)@.agrees(final(tasks)@),
    {
        match tasks.get(tid) {
            None => {},
            Some(task) => {
                let mut task = task;
                task.on_rq = false;
                tasks.set(tid, task);
                proof {
                    lemma_wf_steps(self@, tid, 0, 0);
                }
                let was_runnable: bool = self.is_current_task(tid) || queue_get(
                    &self.ready_tasks,
                    tid,
                ).is_some();
                self.detach(tid, task.load);
                if was_runnable {
                    self.update_min_vruntime(tasks);
                    assert(self@.runnable() =~= old(self)@.removed(tid).runnable());
                }
            },
        }
    }

    /// The table of tasks after `remove_task`: the task is marked as off
    /// its run queue.
    pub open spec fn tasks_after_remove(tasks: Map<Tid, SchedTask>, tid: Tid) -> Map<
        Tid,
        SchedTask,
    > {
        if tasks.contains_key(tid) {
            tasks.insert(tid, SchedTask { on_rq: false, ..tasks[tid] })
        } else {
            tasks
        }
    }

    /// Queues a ready task under the key of `vruntime`; a task that is not
    /// ready is not put in.
    pub fn rekey(&mut self, tid: Tid, vruntime: VRuntime)
        requires
            old(self)@.wf(),
        ensures
            final(self)@ == old(self)@.rekeyed(tid, vruntime.spec_key()),
            final(self)@.wf(),
    {
        queue_change_priority(&mut self.ready_tasks, tid, vruntime.key());
        proof {
            assert(self@ == old(self)@.rekeyed(tid, vruntime.spec_key()));
            assert(self@.runnable() =~= old(self)@.runnable());
        }
    }

    /// Charges a task at `now` for the time since its run began, queues it
    /// under its new virtual runtime if it is ready, and brings the floor
    /// up to date.
    pub fn task_tick(&mut self, tasks: &mut TaskTable, tid: Tid, now: u64)
        requires
            old(self)@.wf(),
            old(self)@.agrees(old(tasks)@),
            old(tasks)@.contains_key(tid) ==> old(tasks)@[tid].wf() && old(tasks)@[tid].exec_start
                <= now,
        ensures
            final(tasks)@ == Self::tasks_after_tick(old(tasks)@, tid, now),
            final(self)@ == old(self)@.after_tick(final(tasks)@, tid),
            final(self)@.wf(),
            final(self)@.agrees(final(tasks)@),
    {
        match tasks.get(tid) {
            None => {},
            Some(task) => {
                let mut task = task;
                task.tick(now);
                tasks.set(tid, task);
                self.rekey(tid, task.vruntime);
                self.update_min_vruntime(tasks);
            },
        }
    }

    /// The table of tasks after `task_tick`.
    pub open spec fn tasks_after_tick(tasks: Map<Tid, SchedTask>, tid: Tid, now: u64) -> Map<
        Tid,
        SchedTask,
    > {
        if tasks.contains_key(tid) {
            tasks.insert(tid, tasks[tid].spec_tick(now))
        } else {
            tasks
        }
    }
}

impl RunQueueView {
    /// The queue with a ready task under another key; a task that is not
    /// ready is not put in.
    pub open spec fn rekeyed(self, tid: Tid, key: i64) -> RunQueueView {
        if self.ready.contains_key(tid) {
            RunQueueView { ready: self.ready.insert(tid, key), ..self }
        } else {
            self
        }
    }

    /// The virtual runtime with which a task becomes ready again: its own,
    /// unless that is more than `thresh` before the floor of the queue; then
    /// it is the floor less `thresh`.
    pub open spec fn wake_vruntime(self, task: SchedTask, thresh: u64) -> VRuntime {
        task.vruntime.spec_max(self.min_vruntime.spec_retreat(thresh))
    }

    /// The table of tasks after `push_task_to_ready`.
    pub open spec fn tasks_after_push(self, tasks: Map<Tid, SchedTask>, tid: Tid, thresh: u64) -> Map<
        Tid,
        SchedTask,
    > {
        if tasks.contains_key(tid) {
            tasks.insert(
                tid,
                SchedTask {
                    on_rq: true,
                    vruntime: self.wake_vruntime(tasks[tid], thresh),
                    ..tasks[tid]
                },
            )
        } else {
            tasks
        }
    }

    /// The queue after `push_task_to_ready`, where `tasks` is the table
    /// before it.
    pub open spec fn after_push(self, tasks: Map<Tid, SchedTask>, tid: Tid, thresh: u64) -> RunQueueView {
        if tasks.contains_key(tid) {
            self.inserted(
                tid,
                self.wake_vruntime(tasks[tid], thresh).spec_key(),
                tasks[tid].load@,
            )
        } else {
            self
        }
    }

    /// The queue with its floor brought up to date against a table of
    /// tasks.
    pub open spec fn refloored(self, tasks: Map<Tid, SchedTask>) -> RunQueueView {
        self.with_min_vruntime(self.advanced_floor(self.current_in(tasks)))
    }

    /// The queue after `remove_task`, where `tasks` is the table after it.
    pub open spec fn after_remove(self, tasks: Map<Tid, SchedTask>, tid: Tid) -> RunQueueView {
        if self.runnable().contains(tid) && tasks.contains_key(tid) {
            self.removed(tid).refloored(tasks)
        } else {
            self
        }
    }

    /// The queue after `task_tick`, where `tasks` is the table after it.
    pub open spec fn after_tick(self, tasks: Map<Tid, SchedTask>, tid: Tid) -> RunQueueView {
        if tasks.contains_key(tid) {
            self.rekeyed(tid, tasks[tid].vruntime.spec_key()).refloored(tasks)
        } else {
            self
        }
    }
}

impl RunQueueView {
    /// The queue after a running task that is not ready again was taken
    /// off: such a task has stopped, and cannot be picked.
    pub open spec fn settled(self, tasks: Map<Tid, SchedTask>) -> RunQueueView {
        match self.current {
            Some(tid) => if self.ready.contains_key(tid) {
                self
            } else {
                self.after_remove(RunQueue::tasks_after_remove(tasks, tid), tid)
            },
            None => self,
        }
    }

    /// The table of tasks after a running task that is not ready again was
    /// taken off.
    pub open spec fn tasks_settled(self, tasks: Map<Tid, SchedTask>) -> Map<Tid, SchedTask> {
        match self.current {
            Some(tid) => if self.ready.contains_key(tid) {
                tasks
            } else {
                RunQueue::tasks_after_remove(tasks, tid)
            },
            None => tasks,
        }
    }

    /// Whether the running task, whose record is `current`, gives way to
    /// another: it does if it is off the queue or has run for longer than
    /// its slice since it was picked; it does not if it has run for less
    /// than the minimal granularity; and else it does if it is ahead of the
    /// earliest ready task by more than its slice.
    pub open spec fn preempts(self, current: SchedTask) -> bool {
        let ideal_runtime = self.slice_of(current);
        let delta_exec = current.sum_exec_runtime - current.prev_sum_exec_runtime;
        if !current.on_rq || delta_exec > ideal_runtime {
            true
        } else if delta_exec < SCHED_MIN_GRANULARITY {
            false
        } else {
            match top_key(self.ready) {
                Some(key) => current.vruntime.spec_delta(VRuntime::spec_from_key(key))
                    > ideal_runtime,
                None => false,
            }
        }
    }

    /// Whether `next` is a task that a settled queue may pick: with fewer
    /// than two runnable tasks, or with none running, a ready task with the
    /// earliest virtual runtime; else the running task, unless it gives way,
    /// and then a task with the earliest virtual runtime among the other
    /// ready tasks.
    pub open spec fn may_pick(self, tasks: Map<Tid, SchedTask>, next: Tid) -> bool {
        &&& self.ready.contains_key(next)
        &&& match self.current {
            Some(current) => if self.nr_running < 2 {
                is_greatest(self.ready, (next, self.ready[next]))
            } else if self.preempts(tasks[current]) && self.ready.remove(current).dom().len()
                > 0 {
                is_greatest(self.ready.remove(current), (next, self.ready[next]))
            } else {
                next == current
            },
            None => is_greatest(self.ready, (next, self.ready[next])),
        }
    }

    /// The queue after it picked the ready task `next`: the task runs and
    /// is no longer among the ready tasks.
    pub open spec fn picked(self, next: Tid) -> RunQueueView {
        RunQueueView { ready: self.ready.remove(next), current: Some(next), ..self }
    }

    /// Every ready task began its last run at `now` or before.
    pub open spec fn not_after(self, tasks: Map<Tid, SchedTask>, now: u64) -> bool {
        forall|tid: Tid| #[trigger]
            self.ready.contains_key(tid) && tasks.contains_key(tid) ==> tasks[tid].exec_start
                <= now
    }
}

impl RunQueue {
    /// The record of a task after it was picked at `now`: its run begins
    /// at `now`, and, where another task ran before, the time that it has
    /// run in all is noted as the start of its slice.
    pub open spec fn task_after_pick(task: SchedTask, switched: bool, now: u64) -> SchedTask {
        SchedTask {
            exec_start: now,
            prev_sum_exec_runtime: if switched {
                task.sum_exec_runtime
            } else {
                task.prev_sum_exec_runtime
            },
            ..task
        }
    }

    /// Picks the task to run next and makes it the running task. Returns
    /// `None`, and changes nothing, where no task is ready.
    pub fn pop_task_to_run(&mut self, tasks: &mut TaskTable, now: u64) -> (next: Option<Tid>)
        requires
            old(self)@.wf(),
            old(self)@.agrees(old(tasks)@),
            old(self)@.not_after(old(tasks)@, now),
            old(self)@.nr_running * SCHED_MIN_GRANULARITY <= u64::MAX,
        ensures
            next is None <==> old(self)@.ready.dom().len() == 0,
            next is None ==> final(self)@ == old(self)@ && final(tasks)@ == old(tasks)@,
            next matches Some(picked) ==> {
                &&& old(self)@.settled(old(tasks)@).may_pick(
                    old(self)@.tasks_settled(old(tasks)@),
                    picked,
                )
                &&& final(self)@ == old(self)@.settled(old(tasks)@).picked(picked)
                &&& final(tasks)@ == old(self)@.tasks_settled(old(tasks)@).insert(
                    picked,
                    Self::task_after_pick(
                        old(tasks)@[picked],
                        old(self)@.settled(old(tasks)@).current != Some(picked),
                        now,
                    ),
                )
            },
            final(self)@.wf(),
            final(self)@.agrees(final(tasks)@),
    {
        let top: (Tid, VRuntime) = match self.peek() {
            Some(entry) => entry,
            None => {
                return None;
            },
        };
        assert(old(self)@.ready.dom().contains(top.0));
        if let Some(current) = self.current_task {
            if queue_get(&self.ready_tasks, current).is_none() {
                self.remove_task(tasks, current);
            }
        }
        let ghost settled = self@;
        let ghost settled_tasks = tasks@;
        proof {
            assert(settled == old(self)@.settled(old(tasks)@));
            assert(settled_tasks == old(self)@.tasks_settled(old(tasks)@));
            assert(settled.ready =~= old(self)@.ready);
            assert(settled.nr_running <= old(self)@.nr_running);
            lemma_top_key(settled.ready, top.0, top.1.spec_key());
            crate::vruntime::lemma_key_round_trip(top.1);
        }
        let mut next: Tid = top.0;
        if self.nr_running >= 2 {
            if let Some(current) = self.current_task {
                assert(settled.weights.contains_key(current));
                if let Some(running) = tasks.get(current) {
                    next = current;
                    if self.preempts(&running, top.1) {
                        let held: Option<(usize, i64)> = queue_remove(
                            &mut self.ready_tasks,
                            current,
                        );
                        let other: Option<(usize, i64)> = queue_peek(&self.ready_tasks);
                        if let Some(entry) = held {
                            queue_push(&mut self.ready_tasks, entry.0, entry.1);
                        }
                        assert(self@.ready =~= settled.ready);
                        if let Some(entry) = other {
                            assert(settled.ready.remove(current).dom().contains(entry.0));
                            assert(settled.ready.remove(current).dom().finite());
                            next = entry.0;
                        }
                    }
                }
            }
        }
        assert(self@ == settled);
        assert(settled.may_pick(settled_tasks, next));
        let switched: bool = !self.is_current_task(next);
        queue_remove(&mut self.ready_tasks, next);
        self.current_task = Some(next);
        if let Some(task) = tasks.get(next) {
            let mut task = task;
            if switched {
                task.prev_sum_exec_runtime = task.sum_exec_runtime;
            }
            task.exec_start = now;
            tasks.set(next, task);
        }
        proof {
            assert(self@ == settled.picked(next));
            assert(self@.runnable() =~= settled.runnable());
        }
        Some(next)
    }

    /// Whether the running task, whose record is `running`, gives way to
    /// another, where `earliest` is the earliest virtual runtime among the
    /// ready tasks.
    fn preempts(&self, running: &SchedTask, earliest: VRuntime) -> (preempt_current: bool)
        requires
            running.wf(),
            running.on_rq,
            self@.has_room_for(*running),
            top_key(self@.ready) == Some(earliest.spec_key()),
        ensures
            preempt_current == self@.preempts(*running),
    {
        let ideal_runtime: u64 = self.sched_slice(running);
        let delta_exec: u64 = running.sum_exec_runtime - running.prev_sum_exec_runtime;
        if !running.on_rq || delta_exec > ideal_runtime {
            true
        } else if delta_exec < SCHED_MIN_GRANULARITY {
            // A task that has only just been picked keeps the CPU, so that
            // tasks do not take turns too fast.
            false
        } else {
            proof {
                crate::vruntime::lemma_key_round_trip(earliest);
            }
            let delta: i64 = running.vruntime.delta(earliest);
            delta > 0 && (delta as u64) > ideal_runtime
        }
    }
}

impl RunQueueView {
    /// Whether a steal moved `tid` from the donor `self` to the thief: it was
    /// ready on the donor before, and is not after.
    pub open spec fn gave(self, after: RunQueueView, tid: Tid) -> bool {
        self.ready.contains_key(tid) && !after.ready.contains_key(tid)
    }
}

/// The record of a task after it was moved to the run queue of `cpu`: its
/// virtual runtime keeps its distance from the floor, which is now the floor
/// of the new queue.
pub open spec fn rebased(task: SchedTask, from: VRuntime, to: VRuntime, cpu: usize) -> SchedTask {
    SchedTask {
        vruntime: task.vruntime.spec_retreat(from.0).spec_advance(to.0),
        run_queue: cpu,
        ..task
    }
}

/// What a steal leaves: `thief0`, `donor0` and `tasks0` are the two queues and
/// the table of tasks before, `thief`, `donor` and `tasks` after, and
/// `stolen` is the number of tasks moved.
pub open spec fn is_steal(
    thief0: RunQueueView,
    donor0: RunQueueView,
    tasks0: Map<Tid, SchedTask>,
    thief: RunQueueView,
    donor: RunQueueView,
    tasks: Map<Tid, SchedTask>,
    cpu: usize,
    stolen: nat,
) -> bool {
    // Neither queue changes its running task or its floor.
    &&& thief.current == thief0.current
    &&& thief.min_vruntime == thief0.min_vruntime
    &&& donor.current == donor0.current
    &&& donor.min_vruntime == donor0.min_vruntime
    // The donor keeps some of its ready tasks, under their keys.
    &&& forall|tid: Tid| #[trigger]
        donor.ready.contains_key(tid) ==> donor0.ready.contains_key(tid) && donor.ready[tid]
            == donor0.ready[tid]
    // The thief has its own ready tasks, under their keys, and those that the
    // donor gave, under the keys of their new virtual runtimes.
    &&& forall|tid: Tid| #[trigger]
        thief.ready.contains_key(tid) <==> thief0.ready.contains_key(tid) || donor0.gave(
            donor,
            tid,
        )
    &&& forall|tid: Tid| #[trigger]
        thief0.ready.contains_key(tid) ==> thief.ready[tid] == thief0.ready[tid]
    // The running task of the donor is not given, and what is given was due
    // no later than what stays.
    &&& forall|tid: Tid| #[trigger] donor0.gave(donor, tid) ==> !donor0.is_current(tid)
    &&& forall|given: Tid, kept: Tid|
        donor0.gave(donor, given) && #[trigger] donor.ready.contains_key(kept)
            && !donor0.is_current(kept) ==> #[trigger] donor0.ready[given] >= donor0.ready[kept]
    // The table holds the same tasks; those given are rebased and belong to
    // the thief's CPU, the others are as they were.
    &&& tasks.dom() == tasks0.dom()
    &&& forall|tid: Tid| #[trigger]
        tasks0.contains_key(tid) ==> tasks[tid] == (if donor0.gave(donor, tid) {
            rebased(tasks0[tid], donor0.min_vruntime, thief0.min_vruntime, cpu)
        } else {
            tasks0[tid]
        })
    // Counts and loads move with the tasks.
    &&& thief.nr_running == thief0.nr_running + stolen
    &&& donor.nr_running + stolen == donor0.nr_running
    &&& donor.ready.dom().len() + stolen == donor0.ready.dom().len()
    &&& thief.load + donor.load == thief0.load + donor0.load
    // Up to half of the donor's ready tasks are taken, one fewer where its
    // running task was among those looked at.
    &&& stolen <= donor0.ready.dom().len() / 2
    &&& stolen + 1 >= donor0.ready.dom().len() / 2
    &&& (match donor0.current {
        Some(tid) => !donor0.ready.contains_key(tid),
        None => true,
    }) ==> stolen == donor0.ready.dom().len() / 2
}

impl RunQueue {
    /// Takes over up to half of the ready tasks of `donor`, the earliest
    /// first, for the run queue of `cpu`. The running task of the donor is
    /// passed over where it is among them. Returns the number of tasks taken.
    pub fn steal_from(&mut self, donor: &mut RunQueue, tasks: &mut TaskTable, cpu: usize) -> (stolen:
        usize)
        requires
            old(self)@.wf(),
            old(donor)@.wf(),
            old(self)@.agrees(old(tasks)@),
            old(donor)@.agrees(old(tasks)@),
            old(self)@.runnable().disjoint(old(donor)@.runnable()),
            old(self)@.nr_running + old(donor)@.nr_running <= usize::MAX,
            old(self)@.load + old(donor)@.load <= u64::MAX,
        ensures
            is_steal(
                old(self)@,
                old(donor)@,
                old(tasks)@,
                final(self)@,
                final(donor)@,
                final(tasks)@,
                cpu,
                stolen as nat,
            ),
            final(self)@.wf(),
            final(donor)@.wf(),
            final(self)@.agrees(final(tasks)@),
            final(donor)@.agrees(final(tasks)@),
            final(self)@.runnable().disjoint(final(donor)@.runnable()),
    {
        let ghost thief0 = self@;
        let ghost donor0 = donor@;
        let ghost tasks0 = tasks@;
        let len: usize = donor.ready_len();
        let mut count: usize = len / 2;
        let mut stolen: usize = 0;
        let mut held: Option<(Tid, i64)> = None;
        let from: VRuntime = donor.min_vruntime;
        let to: VRuntime = self.min_vruntime;
        while count != 0
            invariant
                self@.wf(),
                donor@.wf(),
                self@.agrees(tasks@),
                donor@.agrees(tasks@),
                self@.runnable().disjoint(donor@.runnable()),
                thief0.wf(),
                donor0.wf(),
                thief0.runnable().disjoint(donor0.runnable()),
                thief0.nr_running + donor0.nr_running <= usize::MAX,
                thief0.load + donor0.load <= u64::MAX,
                from == donor0.min_vruntime,
                to == thief0.min_vruntime,
                len == donor0.ready.dom().len(),
                held matches Some(entry) ==> donor0.is_current(entry.0)
                    && donor0.ready.contains_key(entry.0) && donor0.ready[entry.0] == entry.1
                    && !donor@.ready.contains_key(entry.0),
                stolen + count + (if held is Some { 1nat } else { 0nat }) == len / 2,
                donor@.ready.dom().len() + stolen + (if held is Some { 1nat } else { 0nat })
                    == len,
                self@.current == thief0.current,
                self@.min_vruntime == thief0.min_vruntime,
                donor@.current == donor0.current,
                donor@.min_vruntime == donor0.min_vruntime,
                forall|tid: Tid| #[trigger]
                    donor@.ready.contains_key(tid) ==> donor0.ready.contains_key(tid)
                        && donor@.ready[tid] == donor0.ready[tid],
                forall|tid: Tid| #[trigger]
                    self@.ready.contains_key(tid) <==> thief0.ready.contains_key(tid) || (
                    donor0.gave(donor@, tid) && !(held matches Some(entry) && entry.0 == tid)),
                forall|tid: Tid| #[trigger]
                    thief0.ready.contains_key(tid) ==> self@.ready[tid] == thief0.ready[tid],
                forall|tid: Tid| #[trigger]
                    donor0.gave(donor@, tid) && donor0.is_current(tid) ==> (held matches Some(
                        entry,
                    ) && entry.0 == tid),
                forall|given: Tid, kept: Tid|
                    donor0.gave(donor@, given) && #[trigger] donor@.ready.contains_key(kept)
                        ==> #[trigger] donor0.ready[given] >= donor0.ready[kept],
                tasks@.dom() == tasks0.dom(),
                forall|tid: Tid| #[trigger]
                    tasks0.contains_key(tid) ==> tasks@[tid] == (if donor0.gave(donor@, tid) && !(
                    held matches Some(entry) && entry.0 == tid) {
                        rebased(tasks0[tid], from, to, cpu)
                    } else {
                        tasks0[tid]
                    }),
                self@.nr_running == thief0.nr_running + stolen,
                donor@.nr_running + stolen == donor0.nr_running,
                self@.load + donor@.load == thief0.load + donor0.load,
            decreases count,
        {
            count = count - 1;
            let ghost donor1 = donor@;
            let ghost thief1 = self@;
            let ghost tasks1 = tasks@;
            match queue_peek(&donor.ready_tasks) {
                None => {
                    // Fewer tasks were looked at than the donor had ready.
                    assert(donor1.ready.dom().len() == 0);
                    assert(false);
                },
                Some((tid, key)) => {
                    assert(donor1.ready.contains_key(tid));
                    if donor.is_current_task(tid) {
                        queue_remove(&mut donor.ready_tasks, tid);
                        held = Some((tid, key));
                        assert(donor@.runnable() =~= donor1.runnable());
                    } else {
                        assert(donor1.weights.contains_key(tid));
                        assert(donor1.runnable().contains(tid));
                        assert(!thief1.runnable().contains(tid));
                        match tasks.get(tid) {
                            None => {
                                // The table has every runnable task.
                                assert(false);
                            },
                            Some(task) => {
                                let mut task = task;
                                proof {
                                    lemma_wf_steps(donor1, tid, 0, 0);
                                    lemma_wf_steps(thief1, tid, 0, 0);
                                }
                                donor.detach(tid, task.load);
                                task.vruntime = task.vruntime.retreat(from.0).advance(to.0);
                                task.run_queue = cpu;
                                tasks.set(tid, task);
                                self.insert_task(tid, task.vruntime, task.load);
                                stolen = stolen + 1;
                                proof {
                                    assert(donor@.runnable() =~= donor1.runnable().remove(tid));
                                    assert(self@.runnable() =~= thief1.runnable().insert(tid));
                                    assert(tasks0.contains_key(tid));
                                    assert(!thief0.ready.contains_key(tid)) by {
                                        assert(donor0.runnable().contains(tid));
                                        if thief0.ready.contains_key(tid) {
                                            assert(thief0.runnable().contains(tid));
                                        }
                                    }
                                }
                            },
                        }
                    }
                },
            }
        }
        let ghost donor2 = donor@;
        if let Some(entry) = held {
            queue_push(&mut donor.ready_tasks, entry.0, entry.1);
            proof {
                assert(donor@.runnable() =~= donor2.runnable());
                assert(donor@.ready.dom() =~= donor2.ready.dom().insert(entry.0));
            }
        }
        stolen
    }
}

/// A queue counts no more tasks than the table of tasks holds, and its load
/// is at most the greatest weight for each of them.
pub proof fn lemma_queue_within(q: RunQueueView, tasks: Map<Tid, SchedTask>)
    requires
        q.wf(),
        q.agrees(tasks),
        tasks.dom().finite(),
    ensures
        q.nr_running <= tasks.dom().len(),
        q.load <= 88761 * tasks.dom().len(),
{
    assert(q.weights.dom().subset_of(tasks.dom())) by {
        assert forall|tid: Tid| q.weights.dom().contains(tid) implies tasks.dom().contains(
            tid,
        ) by {
            assert(q.weights.contains_key(tid));
        }
    }
    vstd::set_lib::lemma_len_subset(q.weights.dom(), tasks.dom());
    assert forall|tid: Tid| #[trigger] q.weights.contains_key(tid) implies q.weights[tid]
        <= 88761 by {
        crate::weight::lemma_weight_bounds(tasks[tid].nice as int);
    }
    lemma_total_weight_bound(q.weights, 88761);
    assert(88761 * q.weights.dom().len() <= 88761 * tasks.dom().len()) by (nonlinear_arith)
        requires
            q.weights.dom().len() <= tasks.dom().len(),
    ;
}

} // verus!
