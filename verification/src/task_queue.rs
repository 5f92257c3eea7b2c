//! A plain run queue for one CPU: tasks are ordered by virtual runtime, and
//! the task that runs gives way only to a task that is behind it by more
//! than the wake-up granularity. It keeps no account of load. Times are in
//! microseconds, and virtual runtimes do not wrap.

use crate::queue::{
    is_greatest, queue_change_priority, queue_contents, queue_new, queue_peek, queue_push,
    queue_remove,
};
use crate::task::Tid;
use crate::weight::{lemma_weight_bounds, nice_to_weight, valid_nice, weight_of_nice};
use ahash::RandomState;
use priority_queue::PriorityQueue;
use std::collections::BTreeMap;
use vstd::prelude::*;

verus! {

/// The wake-up granularity, in microseconds: a task that runs is not
/// preempted by a task that is less than this, in the virtual time of that
/// task, behind it.
pub const WAKEUP_GRANULARITY_US: u64 = 1000;

/// What the queue records of a task.
#[derive(Clone, Copy, Debug, PartialEq, Eq, Structural)]
pub struct TaskStats {
    /// The identity of the task.
    pub tid: Tid,
    /// The niceness of the task.
    pub priority: isize,
    /// The virtual runtime of the task, in microseconds.
    pub vruntime: u64,
}

impl TaskStats {
    /// The record of a task.
    pub fn new(tid: Tid, priority: isize, vruntime: u64) -> (task: TaskStats)
        ensures
            task == (TaskStats { tid, priority, vruntime }),
    {
        TaskStats { tid, priority, vruntime }
    }
}

/// The weight of a task of the given priority, which is a niceness.
pub fn priority_to_weight(priority: isize) -> (weight: u64)
    requires
        valid_nice(priority as int),
    ensures
        weight == weight_of_nice(priority as int),
        15 <= weight <= 88761,
{
    nice_to_weight(priority)
}

/// The virtual time that `delta_exec` of real time is worth to a task of
/// the given priority: `delta_exec * 1024 / weight`, rounded down.
pub open spec fn delta_fair_exact(delta_exec: u64, priority: isize) -> int {
    delta_exec * 1024 / (weight_of_nice(priority as int) as int)
}

/// The virtual time that `delta_exec` of real time is worth to `task`.
pub fn calc_delta_fair(delta_exec: u64, task: &TaskStats) -> (delta: u64)
    requires
        valid_nice(task.priority as int),
        delta_exec * 1024 <= u64::MAX,
    ensures
        delta == delta_fair_exact(delta_exec, task.priority),
{
    delta_exec * 1024 / priority_to_weight(task.priority)
}

/// The key under which a max-first queue hands out the least virtual
/// runtime first.
pub open spec fn key_of(vruntime: u64) -> i64 {
    (0x7fff_ffff_ffff_ffff - vruntime) as i64
}

/// The key of a virtual runtime.
fn key(vruntime: u64) -> (key: i64)
    ensures
        key == key_of(vruntime),
{
    if vruntime <= 0x7fff_ffff_ffff_ffff {
        (0x7fff_ffff_ffff_ffff - vruntime) as i64
    } else {
        -1 - ((vruntime - 0x8000_0000_0000_0000) as i64)
    }
}

/// The virtual runtime of a key.
fn vruntime_of(key: i64) -> (vruntime: u64)
    ensures
        key_of(vruntime) == key,
{
    if key >= 0 {
        0x7fff_ffff_ffff_ffff - (key as u64)
    } else {
        0x8000_0000_0000_0000 + ((-1 - key) as u64)
    }
}

/// What a plain run queue holds.
#[verifier::ext_equal]
pub struct TaskQueueView {
    /// The key of each ready task: `key_of` its virtual runtime.
    pub ready: Map<Tid, i64>,
    /// The record of each task that was ever ready.
    pub tasks: Map<Tid, TaskStats>,
    /// The task that runs.
    pub current: Option<Tid>,
}

impl TaskQueueView {
    /// Every ready task has a record, and is ready under the key of its
    /// virtual runtime; every record bears its identity and a valid
    /// priority.
    pub open spec fn wf(self) -> bool {
        &&& forall|tid: Tid| #[trigger]
            self.ready.contains_key(tid) ==> self.tasks.contains_key(tid) && self.ready[tid]
                == key_of(self.tasks[tid].vruntime)
        &&& forall|tid: Tid| #[trigger]
            self.tasks.contains_key(tid) ==> self.tasks[tid].tid == tid && valid_nice(
                self.tasks[tid].priority as int,
            )
    }

    /// The virtual runtime of the running task, if a task runs and has a
    /// record.
    pub open spec fn current_vruntime(self) -> Option<u64> {
        match self.current {
            Some(tid) => if self.tasks.contains_key(tid) {
                Some(self.tasks[tid].vruntime)
            } else {
                None
            },
            None => None,
        }
    }

    /// Whether `tid` is a ready task with the least virtual runtime.
    pub open spec fn is_next(self, tid: Tid) -> bool {
        self.ready.contains_key(tid) && is_greatest(self.ready, (tid, self.ready[tid]))
    }

    /// Whether the running task gives way to the ready task `next`: it does
    /// unless it is ahead of it by no more than the wake-up granularity, in
    /// the virtual time of `next`. Where no task runs, `next` is free to run.
    pub open spec fn gives_way_to(self, next: Tid) -> bool {
        match self.current_vruntime() {
            Some(running) => {
                let behind = if running >= self.tasks[next].vruntime {
                    running - self.tasks[next].vruntime
                } else {
                    0
                };
                behind > delta_fair_exact(WAKEUP_GRANULARITY_US, self.tasks[next].priority)
            },
            None => true,
        }
    }
}

/// A plain run queue.
pub struct TaskQueue {
    ready_tasks: PriorityQueue<usize, i64, RandomState>,
    tasks: BTreeMap<Tid, TaskStats>,
    current_task: Option<Tid>,
}

impl View for TaskQueue {
    type V = TaskQueueView;

    closed spec fn view(&self) -> TaskQueueView {
        TaskQueueView {
            ready: queue_contents(self.ready_tasks),
            tasks: self.tasks@,
            current: self.current_task,
        }
    }
}

impl TaskQueue {
    /// A queue without tasks.
    pub fn new() -> (queue: TaskQueue)
        ensures
            queue@ == (TaskQueueView {
                ready: Map::<Tid, i64>::empty(),
                tasks: Map::<Tid, TaskStats>::empty(),
                current: None,
            }),
            queue@.wf(),
    {
        TaskQueue { ready_tasks: queue_new(), tasks: BTreeMap::new(), current_task: None }
    }

    /// The task that runs.
    pub fn current_task(&self) -> (current: Option<Tid>)
        ensures
            current == self@.current,
    {
        self.current_task
    }

    /// The record of a task.
    pub fn task(&self, tid: Tid) -> (found: Option<TaskStats>)
        ensures
            found == (if self@.tasks.contains_key(tid) {
                Some(self@.tasks[tid])
            } else {
                None
            }),
    {
        broadcast use vstd::std_specs::btree::group_btree_axioms;

        match self.tasks.get(&tid) {
            Some(task) => Some(*task),
            None => None,
        }
    }

    /// A ready task with the least virtual runtime, and that runtime.
    pub fn peek(&self) -> (next: Option<(Tid, u64)>)
        ensures
            next matches Some(entry) ==> is_greatest(self@.ready, (entry.0, key_of(entry.1))),
            next is None ==> self@.ready.dom() =~= Set::empty(),
    {
        match queue_peek(&self.ready_tasks) {
            Some((tid, key)) => Some((tid, vruntime_of(key))),
            None => None,
        }
    }

    /// The floor for tasks that become ready: the lesser of the virtual
    /// runtime of the running task and the least virtual runtime of the
    /// ready tasks, where a queue without ready tasks counts as 0 and a
    /// queue without a running task is not held back by one.
    pub fn min_vruntime(&self) -> (floor: u64)
        requires
            self@.wf(),
        ensures
            floor == self@.floor(),
    {
        let current_vruntime: u64 = match self.current_task {
            Some(tid) => match self.task(tid) {
                Some(task) => task.vruntime,
                None => u64::MAX,
            },
            None => u64::MAX,
        };
        let next_vruntime: u64 = match self.peek() {
            Some(entry) => {
                proof {
                    lemma_least(self@.ready, entry.0, key_of(entry.1));
                    lemma_key_is_one_to_one(entry.1, self@.least_ready()->0);
                }
                entry.1
            },
            None => {
                proof {
                    lemma_none_least(self@.ready);
                }
                0
            },
        };
        if current_vruntime <= next_vruntime {
            current_vruntime
        } else {
            next_vruntime
        }
    }

    /// Picks a ready task with the least virtual runtime and makes it the
    /// running task, if the running task gives way to it. Returns `None`,
    /// and changes nothing, where no task is ready or the running task does
    /// not give way.
    pub fn pop_task_to_run(&mut self) -> (next: Option<TaskStats>)
        requires
            old(self)@.wf(),
        ensures
            final(self)@.wf(),
            match next {
                Some(task) => {
                    &&& old(self)@.is_next(task.tid)
                    &&& old(self)@.gives_way_to(task.tid)
                    &&& task == old(self)@.tasks[task.tid]
                    &&& final(self)@ == (TaskQueueView {
                        ready: old(self)@.ready.remove(task.tid),
                        current: Some(task.tid),
                        ..old(self)@
                    })
                },
                None => {
                    &&& final(self)@ == old(self)@
                    &&& old(self)@.ready.dom() =~= Set::empty() || exists|tid: Tid|
                        old(self)@.is_next(tid) && !#[trigger] old(self)@.gives_way_to(tid)
                },
            },
    {
        let (next_tid, next_vruntime) = match self.peek() {
            Some(entry) => entry,
            None => {
                return None;
            },
        };
        let next_task: TaskStats = match self.task(next_tid) {
            Some(task) => task,
            None => {
                return None;
            },
        };
        proof {
            lemma_key_is_one_to_one(next_vruntime, next_task.vruntime);
            lemma_weight_bounds(next_task.priority as int);
        }
        let running: Option<u64> = match self.current_task {
            Some(tid) => match self.task(tid) {
                Some(task) => Some(task.vruntime),
                None => None,
            },
            None => None,
        };
        if let Some(current_vruntime) = running {
            if current_vruntime.saturating_sub(next_vruntime) <= calc_delta_fair(
                WAKEUP_GRANULARITY_US,
                &next_task,
            ) {
                assert(old(self)@.is_next(next_tid) && !old(self)@.gives_way_to(next_tid));
                return None;
            }
        }
        queue_remove(&mut self.ready_tasks, next_tid);
        self.current_task = Some(next_tid);
        Some(next_task)
    }

    /// Makes a task ready. A task that was never ready gets a record with
    /// the given priority and starts at the floor of the queue; a task that
    /// is behind the floor is brought up to it.
    pub fn push_task_to_ready(&mut self, tid: Tid, default_priority: isize)
        requires
            old(self)@.wf(),
            valid_nice(default_priority as int),
        ensures
            final(self)@.wf(),
            final(self)@ == old(self)@.pushed(tid, default_priority),
    {
        broadcast use vstd::std_specs::btree::group_btree_axioms;

        let min_vruntime: u64 = self.min_vruntime();
        let mut task: TaskStats = match self.task(tid) {
            Some(task) => task,
            None => TaskStats::new(tid, default_priority, min_vruntime),
        };
        if task.vruntime < min_vruntime {
            task.vruntime = min_vruntime;
        }
        self.tasks.insert(tid, task);
        queue_push(&mut self.ready_tasks, tid, key(task.vruntime));
    }

    /// Charges a task for `delta_exec` of real time: its virtual runtime
    /// grows by what that time is worth to it, and, if it is ready, it is
    /// queued under its new virtual runtime.
    pub fn increase_vruntime(&mut self, tid: Tid, delta_exec: u64)
        requires
            old(self)@.wf(),
            old(self)@.tasks.contains_key(tid),
            delta_exec * 1024 <= u64::MAX,
            old(self)@.tasks[tid].vruntime + delta_fair_exact(
                delta_exec,
                old(self)@.tasks[tid].priority,
            ) <= u64::MAX,
        ensures
            final(self)@.wf(),
            final(self)@ == old(self)@.charged(tid, delta_exec),
    {
        broadcast use vstd::std_specs::btree::group_btree_axioms;

        if let Some(task) = self.task(tid) {
            let mut task = task;
            task.vruntime = task.vruntime + calc_delta_fair(delta_exec, &task);
            self.tasks.insert(tid, task);
            queue_change_priority(&mut self.ready_tasks, tid, key(task.vruntime));
        }
    }

    /// Notes that the running task has stopped running.
    pub fn take_current(&mut self) -> (current: Option<Tid>)
        ensures
            current == old(self)@.current,
            final(self)@ == (TaskQueueView { current: None, ..old(self)@ }),
    {
        let current: Option<Tid> = self.current_task;
        self.current_task = None;
        current
    }
}

impl TaskQueueView {
    /// The least virtual runtime among the ready tasks.
    pub open spec fn least_ready(self) -> Option<u64> {
        if exists|tid: Tid| self.is_next(tid) {
            Some(self.tasks[choose|tid: Tid| self.is_next(tid)].vruntime)
        } else {
            None
        }
    }

    /// The floor for tasks that become ready.
    pub open spec fn floor(self) -> u64 {
        let running = match self.current_vruntime() {
            Some(vruntime) => vruntime,
            None => u64::MAX,
        };
        let next = match self.least_ready() {
            Some(vruntime) => vruntime,
            None => 0,
        };
        if running <= next {
            running
        } else {
            next
        }
    }

    /// The queue after `push_task_to_ready`.
    pub open spec fn pushed(self, tid: Tid, default_priority: isize) -> TaskQueueView {
        let known = if self.tasks.contains_key(tid) {
            self.tasks[tid]
        } else {
            TaskStats { tid, priority: default_priority, vruntime: self.floor() }
        };
        let task = TaskStats {
            vruntime: if known.vruntime < self.floor() {
                self.floor()
            } else {
                known.vruntime
            },
            ..known
        };
        TaskQueueView {
            ready: self.ready.insert(tid, key_of(task.vruntime)),
            tasks: self.tasks.insert(tid, task),
            ..self
        }
    }

    /// The queue after `increase_vruntime`.
    pub open spec fn charged(self, tid: Tid, delta_exec: u64) -> TaskQueueView {
        let task = TaskStats {
            vruntime: (self.tasks[tid].vruntime + delta_fair_exact(
                delta_exec,
                self.tasks[tid].priority,
            )) as u64,
            ..self.tasks[tid]
        };
        TaskQueueView {
            ready: if self.ready.contains_key(tid) {
                self.ready.insert(tid, key_of(task.vruntime))
            } else {
                self.ready
            },
            tasks: self.tasks.insert(tid, task),
            ..self
        }
    }
}

/// Two virtual runtimes with the same key are the same.
pub proof fn lemma_key_is_one_to_one(a: u64, b: u64)
    ensures
        key_of(a) == key_of(b) <==> a == b,
        key_of(a) >= key_of(b) <==> a <= b,
{
}

/// A ready task under the greatest key has the least virtual runtime.
proof fn lemma_least(ready: Map<Tid, i64>, tid: Tid, key: i64)
    requires
        is_greatest(ready, (tid, key)),
    ensures
        forall|q: TaskQueueView|
            q.ready == ready && q.wf() ==> #[trigger] q.least_ready() is Some && key_of(
                q.least_ready()->0,
            ) == key,
{
    assert forall|q: TaskQueueView| q.ready == ready && q.wf() implies #[trigger] q.least_ready()
        is Some && key_of(q.least_ready()->0) == key by {
        assert(q.is_next(tid));
        let chosen = choose|t: Tid| q.is_next(t);
        assert(q.is_next(chosen));
        assert(ready.contains_key(chosen));
        assert(ready.contains_key(tid));
    }
}

/// A queue without ready tasks has no least virtual runtime.
proof fn lemma_none_least(ready: Map<Tid, i64>)
    requires
        ready.dom() =~= Set::empty(),
    ensures
        forall|q: TaskQueueView| q.ready == ready ==> #[trigger] q.least_ready() is None,
{
    assert forall|q: TaskQueueView| q.ready == ready implies #[trigger] q.least_ready()
        is None by {
        if exists|t: Tid| q.is_next(t) {
            let t = choose|t: Tid| q.is_next(t);
            assert(ready.dom().contains(t));
        }
    }
}

} // verus!
