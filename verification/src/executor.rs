//! The executors of the CPUs and the scheduler that holds them: spawning,
//! waking, picking the next task, charging it for its run, and taking work
//! over from another CPU.
//!
//! The scheduler decides; it runs nothing. Its caller keeps the resumable
//! handle of each task under the task's identity, runs the task that
//! `pop_task_to_run` names, and reports back with `finish_run`.

use crate::features::SchedFeatures;
use crate::run_queue::{is_steal, lemma_queue_within, rebased, RunQueue, RunQueueView};
use crate::task::{SchedTask, Tid};
use crate::tasks::TaskTable;
use crate::vruntime::VRuntime;
use crate::weight::{
    lemma_weight_bounds, valid_nice, weight_of_nice, MAX_NICE, MIN_NICE, SCHED_CHILD_RUNS_FIRST,
    SCHED_LATENCY, SCHED_MIN_GRANULARITY,
};
use smallvec::SmallVec;
use vstd::prelude::*;

verus! {

/// The greatest number of CPUs.
pub const MAX_CPU_NUM: usize = 64;

/// The greatest number of tasks that the scheduler holds at a time.
pub const MAX_TASKS: usize = 0x10_0000;

/// What an executor holds.
#[verifier::ext_equal]
pub struct ExecutorView {
    /// The run queue of the CPU.
    pub run_queue: RunQueueView,
    /// The idle task of the CPU.
    pub idle_task: Tid,
}

/// The executor of one CPU: its run queue and its idle task.
pub struct Executor {
    run_queue: RunQueue,
    idle_task: Tid,
}

impl View for Executor {
    type V = ExecutorView;

    closed spec fn view(&self) -> ExecutorView {
        ExecutorView { run_queue: self.run_queue@, idle_task: self.idle_task }
    }
}

/// The executors, one for each CPU, in a vector of the crate `smallvec` that
/// holds up to 16 of them in place.
#[verifier::external_body]
pub struct ExecutorVec {
    inner: SmallVec<[Executor; 16]>,
}

/// The executors that a vector holds, by CPU.
pub uninterp spec fn executors_of(executors: ExecutorVec) -> Seq<Executor>;

/// `SmallVec::new`: a vector that holds nothing.
#[verifier::external_body]
fn executors_new() -> (executors: ExecutorVec)
    ensures
        executors_of(executors) =~= Seq::empty(),
{
    ExecutorVec { inner: SmallVec::new() }
}

/// `SmallVec::len`: the number of executors.
#[verifier::external_body]
fn executors_len(executors: &ExecutorVec) -> (len: usize)
    ensures
        len == executors_of(*executors).len(),
{
    executors.inner.len()
}

/// `SmallVec::push`: the executor is added at the end.
#[verifier::external_body]
fn executors_push(executors: &mut ExecutorVec, executor: Executor)
    ensures
        executors_of(*final(executors)) == executors_of(*old(executors)).push(executor),
{
    executors.inner.push(executor)
}

/// `SmallVec::index`: the executor of a CPU.
#[verifier::external_body]
fn executors_get(executors: &ExecutorVec, cpu: usize) -> (executor: &Executor)
    requires
        cpu < executors_of(*executors).len(),
    ensures
        *executor == executors_of(*executors)[cpu as int],
{
    &executors.inner[cpu]
}

/// `SmallVec::index_mut`: the executor of a CPU, to be changed in place; the
/// other executors stay as they are.
#[verifier::external_body]
fn executors_get_mut(executors: &mut ExecutorVec, cpu: usize) -> (executor: &mut Executor)
    requires
        cpu < executors_of(*old(executors)).len(),
    ensures
        *executor == executors_of(*old(executors))[cpu as int],
        executors_of(*final(executors)) == executors_of(*old(executors)).update(
            cpu as int,
            *final(executor),
        ),
{
    &mut executors.inner[cpu]
}

/// What is known of where a new task comes from.
#[derive(Clone, Copy, Debug)]
pub enum SpawnExtraOptions {
    /// Nothing: the task starts afresh.
    Fresh,
    /// The task is the child of a task that forked.
    Fork {
        /// The task that forked.
        parent_sched_task: Tid,
    },
}

impl SpawnExtraOptions {
    /// Nothing is known.
    pub fn none() -> (options: SpawnExtraOptions)
        ensures
            options == SpawnExtraOptions::Fresh,
    {
        SpawnExtraOptions::Fresh
    }

    /// The task is the child of `parent_sched_task`.
    pub fn fork(parent_sched_task: Tid) -> (options: SpawnExtraOptions)
        ensures
            options == (SpawnExtraOptions::Fork { parent_sched_task }),
    {
        SpawnExtraOptions::Fork { parent_sched_task }
    }
}

impl Default for SpawnExtraOptions {
    fn default() -> (options: SpawnExtraOptions)
        ensures
            options == SpawnExtraOptions::Fresh,
    {
        SpawnExtraOptions::Fresh
    }
}

impl Executor {
    /// The record of a new task for the run queue `rq` of `cpu`: its virtual
    /// runtime is `seed`, or, with `START_DEBIT`, the later of `seed` and the
    /// point one slice of the task after the floor of the queue.
    pub open spec fn spec_new_task(
        rq: RunQueueView,
        features: SchedFeatures,
        tid: Tid,
        nice: isize,
        cpu: usize,
        seed: VRuntime,
    ) -> SchedTask {
        let fresh = SchedTask {
            tid,
            load: crate::weight::LoadWeight::of(weight_of_nice(nice as int)),
            nice,
            on_rq: false,
            run_queue: cpu,
            exec_start: 0,
            sum_exec_runtime: 0,
            prev_sum_exec_runtime: 0,
            vruntime: seed,
        };
        if features.spec_contains(SchedFeatures::START_DEBIT) {
            SchedTask {
                vruntime: seed.spec_max(rq.min_vruntime.spec_advance(rq.vslice_of(fresh))),
                ..fresh
            }
        } else {
            fresh
        }
    }

    /// The executor of `cpu`, with its idle task spawned: the task has the
    /// highest niceness and is ready.
    pub fn new(tasks: &mut TaskTable, features: SchedFeatures, cpu: usize) -> (executor: Executor)
        ensures
            executor@.idle_task == old(tasks).spec_next_vacant(),
            !old(tasks)@.contains_key(executor@.idle_task),
            final(tasks)@ == old(tasks)@.insert(
                executor@.idle_task,
                Self::spec_idle_task(features, executor@.idle_task, cpu),
            ),
            executor@.run_queue == RunQueueView::empty().inserted(
                executor@.idle_task,
                Self::spec_idle_task(features, executor@.idle_task, cpu).vruntime.spec_key(),
                weight_of_nice(MAX_NICE as int) as nat,
            ),
            executor@.run_queue.wf(),
            executor@.run_queue.agrees(final(tasks)@),
    {
        let mut executor = Executor { run_queue: RunQueue::new(), idle_task: 0 };
        proof {
            lemma_weight_bounds(MAX_NICE as int);
        }
        executor.idle_task = executor.spawn(tasks, features, MAX_NICE, cpu, VRuntime(0));
        executor
    }

    /// Spawns a task of niceness `nice` on this CPU, `cpu`, with its virtual
    /// runtime starting from `seed`, and returns its identity: the task is
    /// placed as `spec_new_task` says, put in the table of tasks, and ready.
    pub fn spawn(
        &mut self,
        tasks: &mut TaskTable,
        features: SchedFeatures,
        nice: isize,
        cpu: usize,
        seed: VRuntime,
    ) -> (tid: Tid)
        requires
            valid_nice(nice as int),
            old(self)@.run_queue.wf(),
            old(self)@.run_queue.agrees(old(tasks)@),
            (old(self)@.run_queue.nr_running + 1) * SCHED_MIN_GRANULARITY <= u64::MAX,
            old(self)@.run_queue.nr_running + 1 <= usize::MAX,
            old(self)@.run_queue.load + weight_of_nice(nice as int) <= u64::MAX,
        ensures
            tid == old(tasks).spec_next_vacant(),
            !old(tasks)@.contains_key(tid),
            final(tasks)@ == old(tasks)@.insert(
                tid,
                SchedTask {
                    on_rq: true,
                    ..Self::spec_new_task(old(self)@.run_queue, features, tid, nice, cpu, seed)
                },
            ),
            final(self)@ == (ExecutorView {
                run_queue: old(self)@.run_queue.inserted(
                    tid,
                    Self::spec_new_task(
                        old(self)@.run_queue,
                        features,
                        tid,
                        nice,
                        cpu,
                        seed,
                    ).vruntime.spec_key(),
                    weight_of_nice(nice as int) as nat,
                ),
                ..old(self)@
            }),
            final(self)@.run_queue.wf(),
            final(self)@.run_queue.agrees(final(tasks)@),
    {
        let provisional: Tid = tasks.next_vacant();
        let task: SchedTask = self.new_task(features, provisional, nice, cpu, seed);
        self.enqueue_new(tasks, task)
    }

    /// The record of the idle task of `cpu` when it has just been spawned.
    pub open spec fn spec_idle_task(features: SchedFeatures, tid: Tid, cpu: usize) -> SchedTask {
        SchedTask {
            on_rq: true,
            ..Self::spec_new_task(RunQueueView::empty(), features, tid, MAX_NICE, cpu, VRuntime(0))
        }
    }

    /// The run queue of the CPU.
    pub fn run_queue(&self) -> (rq: &RunQueue)
        ensures
            rq@ == self@.run_queue,
    {
        &self.run_queue
    }

    /// The idle task of the CPU.
    pub fn idle_task(&self) -> (tid: Tid)
        ensures
            tid == self@.idle_task,
    {
        self.idle_task
    }

    /// The record of a new task for this CPU, not yet on the run queue.
    pub fn new_task(
        &self,
        features: SchedFeatures,
        tid: Tid,
        nice: isize,
        cpu: usize,
        seed: VRuntime,
    ) -> (task: SchedTask)
        requires
            valid_nice(nice as int),
            (self@.run_queue.nr_running + 1) * SCHED_MIN_GRANULARITY <= u64::MAX,
            self@.run_queue.nr_running + 1 <= usize::MAX,
            self@.run_queue.load + weight_of_nice(nice as int) <= u64::MAX,
        ensures
            task == Self::spec_new_task(self@.run_queue, features, tid, nice, cpu, seed),
            task.wf(),
            task.tid == tid,
            !task.on_rq,
            task.run_queue == cpu,
            task.exec_start == 0,
            task.load@ == weight_of_nice(nice as int),
    {
        let mut task = SchedTask::new(tid, nice, cpu, seed);
        if features.contains(SchedFeatures::START_DEBIT) {
            let vslice: u64 = self.run_queue.sched_vslice(&task);
            task.vruntime = task.vruntime.max(self.run_queue.min_vruntime().advance(vslice));
        }
        task
    }

    /// Puts a new task in the table of tasks and among the ready tasks of
    /// this CPU, and returns its identity.
    pub fn enqueue_new(&mut self, tasks: &mut TaskTable, task: SchedTask) -> (tid: Tid)
        requires
            old(self)@.run_queue.wf(),
            old(self)@.run_queue.agrees(old(tasks)@),
            task.wf(),
            old(self)@.run_queue.nr_running + 1 <= usize::MAX,
            old(self)@.run_queue.load + task.load@ <= u64::MAX,
        ensures
            tid == old(tasks).spec_next_vacant(),
            !old(tasks)@.contains_key(tid),
            final(tasks)@ == old(tasks)@.insert(tid, SchedTask { tid, on_rq: true, ..task }),
            final(self)@ == (ExecutorView {
                run_queue: old(self)@.run_queue.inserted(tid, task.vruntime.spec_key(), task.load@),
                ..old(self)@
            }),
            final(self)@.run_queue.wf(),
            final(self)@.run_queue.agrees(final(tasks)@),
    {
        let mut task = task;
        task.tid = tasks.next_vacant();
        task.on_rq = true;
        let tid: Tid = tasks.insert(task);
        proof {
            assert(!old(self)@.run_queue.weights.contains_key(tid));
            assert(!old(self)@.run_queue.ready.contains_key(tid));
            crate::run_queue::lemma_wf_steps(
                old(self)@.run_queue,
                tid,
                task.vruntime.spec_key(),
                task.load@,
            );
        }
        self.run_queue.insert_task(tid, task.vruntime, task.load);
        tid
    }
}

/// What the scheduler holds.
#[verifier::ext_equal]
pub struct SystemView {
    /// The record of each active task.
    pub tasks: Map<Tid, SchedTask>,
    /// The run queue of each CPU.
    pub queues: Seq<RunQueueView>,
    /// The idle task of each CPU.
    pub idle: Seq<Tid>,
    /// The policy switches.
    pub features: SchedFeatures,
    /// Whether a forked child is placed before its parent.
    pub child_runs_first: bool,
    /// The latest time that the scheduler was told.
    pub clock: u64,
}

impl SystemView {
    /// The number of CPUs.
    pub open spec fn cpus(self) -> nat {
        self.queues.len()
    }

    /// Whether `tid` is ready or running on the run queue of `cpu`.
    pub open spec fn resides(self, cpu: int, tid: Tid) -> bool {
        0 <= cpu < self.queues.len() && self.queues[cpu].runnable().contains(tid)
    }

    /// The record of an active task is well-formed, bears its identity,
    /// names a CPU, began its last run no later than the clock says, and,
    /// if it is on a run queue, is ready or running on the queue that it
    /// names.
    pub open spec fn task_wf(self, tid: Tid) -> bool {
        let task = self.tasks[tid];
        &&& task.wf()
        &&& task.tid == tid
        &&& task.exec_start <= self.clock
        &&& task.run_queue < self.queues.len()
        &&& task.on_rq ==> self.queues[task.run_queue as int].weights.contains_key(tid)
    }

    /// The run queue of a CPU is well-formed, agrees with the table of
    /// tasks, and holds only tasks that name this CPU.
    pub open spec fn queue_wf(self, cpu: int) -> bool {
        &&& self.queues[cpu].wf()
        &&& self.queues[cpu].agrees(self.tasks)
        &&& forall|tid: Tid| #[trigger]
            self.queues[cpu].weights.contains_key(tid) ==> self.tasks[tid].run_queue == cpu
    }

    /// The table of tasks and the number of CPUs are within their limits,
    /// and every queue and every task is as `queue_wf` and `task_wf` say.
    pub open spec fn wf(self) -> bool {
        &&& self.tasks.dom().finite()
        &&& self.tasks.dom().len() <= MAX_TASKS
        &&& self.queues.len() <= MAX_CPU_NUM
        &&& self.idle.len() == self.queues.len()
        &&& forall|cpu: int| 0 <= cpu < self.queues.len() ==> #[trigger] self.queue_wf(cpu)
        &&& forall|tid: Tid| self.tasks.contains_key(tid) ==> #[trigger] self.task_wf(tid)
    }

    /// Whether the idle task of `cpu` is ready.
    pub open spec fn idle_ready(self, cpu: int) -> bool {
        0 <= cpu < self.queues.len() && self.queues[cpu].ready.contains_key(self.idle[cpu])
    }
}

/// The scheduler: the table of active tasks and the executors of the CPUs.
pub struct SchedulerSystem {
    active_tasks: TaskTable,
    executors: ExecutorVec,
    features: SchedFeatures,
    child_runs_first: bool,
    clock: u64,
}

impl View for SchedulerSystem {
    type V = SystemView;

    closed spec fn view(&self) -> SystemView {
        let executors = executors_of(self.executors);
        SystemView {
            tasks: self.active_tasks@,
            queues: Seq::new(executors.len(), |cpu: int| executors[cpu]@.run_queue),
            idle: Seq::new(executors.len(), |cpu: int| executors[cpu]@.idle_task),
            features: self.features,
            child_runs_first: self.child_runs_first,
            clock: self.clock,
        }
    }
}

/// A scheduler for `cpu_count` CPUs, each with its idle task ready and
/// nothing else.
pub fn init(cpu_count: usize) -> (system: SchedulerSystem)
    requires
        cpu_count <= MAX_CPU_NUM,
    ensures
        system@.wf(),
        system@.cpus() == cpu_count,
        system@.features == SchedFeatures::defaults(),
        system@.child_runs_first == SCHED_CHILD_RUNS_FIRST,
        system@.clock == 0,
        system@.tasks.dom().len() == cpu_count,
        forall|cpu: int|
            0 <= cpu < cpu_count ==> {
                &&& #[trigger] system@.idle_ready(cpu)
                &&& system@.queues[cpu].ready.dom() == set![system@.idle[cpu]]
                &&& system@.queues[cpu].current is None
                &&& system@.queues[cpu].nr_running == 1
                &&& system@.queues[cpu].load == weight_of_nice(MAX_NICE as int)
                &&& system@.queues[cpu].min_vruntime == VRuntime(0)
                &&& system@.tasks.contains_key(system@.idle[cpu])
                &&& system@.tasks[system@.idle[cpu]] == Executor::spec_idle_task(
                    system@.features,
                    system@.idle[cpu],
                    cpu as usize,
                )
            },
{
    let mut system = SchedulerSystem {
        active_tasks: TaskTable::new(),
        executors: executors_new(),
        features: SchedFeatures::new(),
        child_runs_first: SCHED_CHILD_RUNS_FIRST,
        clock: 0,
    };
    let mut cpu: usize = 0;
    while cpu < cpu_count
        invariant
            cpu <= cpu_count <= MAX_CPU_NUM,
            system@.wf(),
            system@.cpus() == cpu,
            system@.features == SchedFeatures::defaults(),
            system@.child_runs_first == SCHED_CHILD_RUNS_FIRST,
            system@.clock == 0,
            system@.tasks.dom().len() == cpu,
            forall|c: int|
                0 <= c < cpu ==> {
                    &&& #[trigger] system@.idle_ready(c)
                    &&& system@.queues[c].ready.dom() == set![system@.idle[c]]
                    &&& system@.queues[c].current is None
                    &&& system@.queues[c].nr_running == 1
                    &&& system@.queues[c].load == weight_of_nice(MAX_NICE as int)
                    &&& system@.queues[c].min_vruntime == VRuntime(0)
                    &&& system@.tasks.contains_key(system@.idle[c])
                    &&& system@.tasks[system@.idle[c]] == Executor::spec_idle_task(
                        system@.features,
                        system@.idle[c],
                        c as usize,
                    )
                },
        decreases cpu_count - cpu,
    {
        let ghost before = system@;
        let executor = Executor::new(&mut system.active_tasks, system.features, cpu);
        let ghost tid = executor@.idle_task;
        executors_push(&mut system.executors, executor);
        proof {
            let after = system@;
            assert(after.queues =~= before.queues.push(executor@.run_queue));
            assert(after.idle =~= before.idle.push(tid));
            assert(after.tasks == before.tasks.insert(tid, after.tasks[tid]));
            assert(after.queues[cpu as int].runnable() =~= set![tid]);
            assert(after.queues[cpu as int].ready.dom() =~= set![tid]);
            assert forall|c: int| 0 <= c < after.queues.len() implies #[trigger] after.queue_wf(
                c,
            ) by {
                if c < cpu {
                    assert(before.queue_wf(c));
                    assert(after.queues[c] == before.queues[c]);
                    assert forall|t: Tid| #[trigger]
                        after.queues[c].weights.contains_key(t) implies t != tid by {
                        assert(before.tasks.contains_key(t));
                    }
                }
            }
            assert(after.queues[cpu as int].weights.contains_key(tid));
            assert(after.queues[cpu as int].weights.dom() =~= set![tid]);
            assert forall|t: Tid| after.tasks.contains_key(t) implies #[trigger] after.task_wf(
                t,
            ) by {
                if t != tid {
                    assert(before.task_wf(t));
                    assert(after.tasks[t] == before.tasks[t]);
                    if before.tasks[t].on_rq {
                        assert(after.queues[before.tasks[t].run_queue as int]
                            == before.queues[before.tasks[t].run_queue as int]);
                    }
                }
            }
            assert(after.queue_wf(cpu as int));
            assert forall|c: int| 0 <= c < cpu + 1 implies {
                &&& #[trigger] after.idle_ready(c)
                &&& after.queues[c].ready.dom() == set![after.idle[c]]
                &&& after.queues[c].current is None
                &&& after.queues[c].nr_running == 1
                &&& after.queues[c].load == weight_of_nice(MAX_NICE as int)
                &&& after.queues[c].min_vruntime == VRuntime(0)
                &&& after.tasks.contains_key(after.idle[c])
                &&& after.tasks[after.idle[c]] == Executor::spec_idle_task(
                    after.features,
                    after.idle[c],
                    c as usize,
                )
            } by {
                if c < cpu {
                    assert(before.idle_ready(c));
                    assert(after.queues[c] == before.queues[c]);
                    assert(after.idle[c] == before.idle[c]);
                    assert(before.tasks.contains_key(before.idle[c]));
                }
            }
        }
        cpu = cpu + 1;
    }
    system
}

/// A step that changes one run queue, and the records of tasks that no other
/// queue counts, keeps the scheduler well-formed where it leaves that queue
/// and those records well-formed.
pub proof fn lemma_local_step(before: SystemView, after: SystemView, cpu: int, touched: Set<Tid>)
    requires
        before.wf(),
        0 <= cpu < before.queues.len(),
        after.queues == before.queues.update(cpu, after.queues[cpu]),
        after.idle == before.idle,
        after.clock >= before.clock,
        after.tasks.dom().finite(),
        after.tasks.dom().len() <= MAX_TASKS,
        forall|tid: Tid|
            !touched.contains(tid) ==> (#[trigger] after.tasks.contains_key(tid)
                <==> before.tasks.contains_key(tid)),
        forall|tid: Tid|
            !touched.contains(tid) && #[trigger] before.tasks.contains_key(tid) ==> after.tasks[tid]
                == before.tasks[tid],
        forall|tid: Tid, other: int|
            touched.contains(tid) && 0 <= other < before.queues.len() && other != cpu
                ==> !#[trigger] before.queues[other].weights.contains_key(tid),
        forall|tid: Tid|
            !touched.contains(tid) && #[trigger] before.queues[cpu].weights.contains_key(tid)
                ==> after.queues[cpu].weights.contains_key(tid),
        after.queue_wf(cpu),
        forall|tid: Tid|
            touched.contains(tid) && after.tasks.contains_key(tid) ==> #[trigger] after.task_wf(
                tid,
            ),
    ensures
        after.wf(),
{
    assert forall|other: int| 0 <= other < after.queues.len() implies #[trigger] after.queue_wf(
        other,
    ) by {
        if other != cpu {
            assert(before.queue_wf(other));
            assert(after.queues[other] == before.queues[other]);
            let q = before.queues[other];
            assert forall|tid: Tid| #[trigger] q.weights.contains_key(tid) implies {
                &&& after.tasks.contains_key(tid)
                &&& after.tasks[tid] == before.tasks[tid]
            } by {
                assert(before.tasks.contains_key(tid));
            }
            assert forall|tid: Tid| #[trigger] q.ready.contains_key(tid) implies {
                &&& after.tasks.contains_key(tid)
                &&& after.tasks[tid] == before.tasks[tid]
            } by {
                assert(q.runnable().contains(tid));
                assert(q.weights.contains_key(tid));
            }
        }
    }
    assert forall|tid: Tid| after.tasks.contains_key(tid) implies #[trigger] after.task_wf(
        tid,
    ) by {
        if !touched.contains(tid) {
            assert(before.tasks.contains_key(tid));
            assert(before.task_wf(tid));
            let task = before.tasks[tid];
            if task.on_rq {
                if task.run_queue as int != cpu {
                    assert(after.queues[task.run_queue as int] == before.queues[task.run_queue as int]);
                }
            }
        }
    }
}

impl SystemView {
    /// The credit that a task gets for having slept: the latency target, or
    /// half of it with `GENTLE_FAIR_SLEEPERS`.
    pub open spec fn sleeper_credit(self) -> u64 {
        if self.features.spec_contains(SchedFeatures::GENTLE_FAIR_SLEEPERS) {
            (SCHED_LATENCY / 2) as u64
        } else {
            SCHED_LATENCY
        }
    }

    /// The virtual runtime with which a task wakes up on its run queue: its
    /// own, unless that is more than the sleeper's credit before the floor of
    /// the queue; then it is the floor less the credit.
    pub open spec fn wake_vruntime(self, task: SchedTask) -> VRuntime {
        self.queues[task.run_queue as int].wake_vruntime(task, self.sleeper_credit())
    }

    /// The scheduler after the task `tid` woke up: the task is on its run
    /// queue, among the ready tasks, with its virtual runtime as
    /// `wake_vruntime` says. A task that is not in the table wakes nothing.
    pub open spec fn woken(self, tid: Tid) -> SystemView {
        if self.tasks.contains_key(tid) {
            let task = self.tasks[tid];
            let cpu = task.run_queue as int;
            let vruntime = self.wake_vruntime(task);
            SystemView {
                tasks: self.tasks.insert(tid, SchedTask { on_rq: true, vruntime, ..task }),
                queues: self.queues.update(
                    cpu,
                    self.queues[cpu].inserted(tid, vruntime.spec_key(), task.load@),
                ),
                ..self
            }
        } else {
            self
        }
    }
}

impl SchedulerSystem {
    /// The number of CPUs.
    pub fn cpu_count(&self) -> (n: usize)
        ensures
            n == self@.cpus(),
    {
        executors_len(&self.executors)
    }

    /// The executor of a CPU.
    pub fn executor(&self, cpu_id: usize) -> (executor: &Executor)
        requires
            cpu_id < self@.cpus(),
        ensures
            executor@.run_queue == self@.queues[cpu_id as int],
            executor@.idle_task == self@.idle[cpu_id as int],
    {
        executors_get(&self.executors, cpu_id)
    }

    /// The record of a task, or `None` for a task that is not active.
    pub fn task(&self, tid: Tid) -> (found: Option<SchedTask>)
        ensures
            found == (if self@.tasks.contains_key(tid) {
                Some(self@.tasks[tid])
            } else {
                None
            }),
    {
        self.active_tasks.get(tid)
    }

    /// The policy switches.
    pub fn features(&self) -> (features: SchedFeatures)
        ensures
            features == self@.features,
    {
        self.features
    }

    /// Sets the policy switches.
    pub fn set_features(&mut self, features: SchedFeatures)
        ensures
            final(self)@ == (SystemView { features, ..old(self)@ }),
    {
        self.features = features;
    }

    /// Chooses whether a forked child is placed before its parent.
    pub fn set_child_runs_first(&mut self, child_runs_first: bool)
        ensures
            final(self)@ == (SystemView { child_runs_first, ..old(self)@ }),
    {
        self.child_runs_first = child_runs_first;
    }

    /// The latest time that the scheduler was told.
    pub fn clock(&self) -> (clock: u64)
        ensures
            clock == self@.clock,
    {
        self.clock
    }

    /// Wakes a task up: it is put on its run queue among the ready tasks.
    /// A task that slept gets credit for it, but no more than
    /// `sleeper_credit`: its virtual runtime is brought up to the floor of
    /// the queue less that credit. Returns whether the task is active.
    pub fn wake(&mut self, tid: Tid) -> (woken: bool)
        requires
            old(self)@.wf(),
        ensures
            woken == old(self)@.tasks.contains_key(tid),
            final(self)@ == old(self)@.woken(tid),
            final(self)@.wf(),
    {
        match self.active_tasks.get(tid) {
            None => false,
            Some(task) => {
                let ghost before = self@;
                assert(before.task_wf(tid));
                let cpu: usize = task.run_queue;
                assert(before.queue_wf(cpu as int));
                let thresh: u64 = if self.features.contains(SchedFeatures::GENTLE_FAIR_SLEEPERS) {
                    SCHED_LATENCY / 2
                } else {
                    SCHED_LATENCY
                };
                proof {
                    lemma_queue_within(before.queues[cpu as int], before.tasks);
                    lemma_weight_bounds(task.nice as int);
                }
                let executor = executors_get_mut(&mut self.executors, cpu);
                executor.run_queue.push_task_to_ready(&mut self.active_tasks, tid, thresh);
                proof {
                    let after = self@;
                    assert(after.queues =~= before.queues.update(cpu as int, after.queues[cpu as int]));
                    assert(after.idle =~= before.idle);
                    assert(after.tasks.dom() =~= before.tasks.dom());
                    assert(after == before.woken(tid));
                    assert forall|t: Tid, other: int|
                        set![tid].contains(t) && 0 <= other < before.queues.len() && other
                            != cpu implies !#[trigger] before.queues[other].weights.contains_key(
                        t,
                    ) by {
                        assert(before.queue_wf(other));
                    }
                    crate::run_queue::lemma_wf_steps(
                        before.queues[cpu as int],
                        tid,
                        after.tasks[tid].vruntime.spec_key(),
                        task.load@,
                    );
                    lemma_local_step(before, after, cpu as int, set![tid]);
                }
                true
            },
        }
    }
}

impl SystemView {
    /// The scheduler after the task `tid` ran and stopped at `now`. A task
    /// that did not yield, because it is done or waits to be woken, is taken
    /// off its run queue. In either case the task is charged for its run.
    pub open spec fn ran(self, tid: Tid, is_yielded: bool, now: u64) -> SystemView {
        if self.tasks.contains_key(tid) {
            let cpu = self.tasks[tid].run_queue as int;
            let tasks1 = if is_yielded {
                self.tasks
            } else {
                RunQueue::tasks_after_remove(self.tasks, tid)
            };
            let queue1 = if is_yielded {
                self.queues[cpu]
            } else {
                self.queues[cpu].after_remove(tasks1, tid)
            };
            let tasks2 = RunQueue::tasks_after_tick(tasks1, tid, now);
            SystemView {
                tasks: tasks2,
                queues: self.queues.update(cpu, queue1.after_tick(tasks2, tid)),
                clock: now,
                ..self
            }
        } else {
            SystemView { clock: now, ..self }
        }
    }

    /// The scheduler after the task `tid` came to its end: it is taken off
    /// its run queue and out of the table.
    pub open spec fn without(self, tid: Tid) -> SystemView {
        if self.tasks.contains_key(tid) {
            let cpu = self.tasks[tid].run_queue as int;
            let tasks1 = RunQueue::tasks_after_remove(self.tasks, tid);
            SystemView {
                tasks: tasks1.remove(tid),
                queues: self.queues.update(cpu, self.queues[cpu].after_remove(tasks1, tid)),
                ..self
            }
        } else {
            self
        }
    }
}

impl SchedulerSystem {
    /// Tells the scheduler that the task `tid` ran and stopped at `now`,
    /// and whether it yielded, that is, whether it was woken while it ran.
    pub fn finish_run(&mut self, tid: Tid, is_yielded: bool, now: u64)
        requires
            old(self)@.wf(),
            old(self)@.clock <= now,
        ensures
            final(self)@ == old(self)@.ran(tid, is_yielded, now),
            final(self)@.wf(),
    {
        let ghost before = self@;
        self.clock = now;
        match self.active_tasks.get(tid) {
            None => {
                proof {
                    let after = self@;
                    assert(after.queues =~= before.queues);
                    assert forall|c: int| 0 <= c < after.queues.len() implies #[trigger] after.queue_wf(
                        c,
                    ) by {
                        assert(before.queue_wf(c));
                    }
                    assert forall|t: Tid| after.tasks.contains_key(t) implies #[trigger] after.task_wf(
                        t,
                    ) by {
                        assert(before.task_wf(t));
                    }
                }
            },
            Some(task) => {
                assert(before.task_wf(tid));
                let cpu: usize = task.run_queue;
                assert(before.queue_wf(cpu as int));
                let executor = executors_get_mut(&mut self.executors, cpu);
                if !is_yielded {
                    executor.run_queue.remove_task(&mut self.active_tasks, tid);
                }
                executor.run_queue.task_tick(&mut self.active_tasks, tid, now);
                proof {
                    let after = self@;
                    assert(after.queues =~= before.queues.update(cpu as int, after.queues[cpu as int]));
                    assert(after.idle =~= before.idle);
                    assert(after.tasks.dom() =~= before.tasks.dom());
                    assert(after == before.ran(tid, is_yielded, now));
                    assert forall|t: Tid, other: int|
                        set![tid].contains(t) && 0 <= other < before.queues.len() && other
                            != cpu implies !#[trigger] before.queues[other].weights.contains_key(
                        t,
                    ) by {
                        assert(before.queue_wf(other));
                    }
                    assert forall|t: Tid| #[trigger]
                        after.queues[cpu as int].weights.contains_key(
                            t,
                        ) implies after.tasks[t].run_queue == cpu by {
                        assert(after.queues[cpu as int].runnable().contains(t));
                        assert(before.queues[cpu as int].runnable().contains(t));
                        assert(before.queues[cpu as int].weights.contains_key(t));
                    }
                    assert forall|t: Tid|
                        !set![tid].contains(t) && #[trigger] before.queues[cpu as int].weights.contains_key(
                            t,
                        ) implies after.queues[cpu as int].weights.contains_key(t) by {
                        assert(before.queues[cpu as int].runnable().contains(t));
                        assert(after.queues[cpu as int].runnable().contains(t));
                    }
                    assert(after.task_wf(tid)) by {
                        if after.tasks[tid].on_rq {
                            assert(is_yielded);
                            assert(before.queues[cpu as int].weights.contains_key(tid));
                            assert(before.queues[cpu as int].runnable().contains(tid));
                            assert(after.queues[cpu as int].runnable().contains(tid));
                        }
                    }
                    lemma_local_step(before, after, cpu as int, set![tid]);
                }
            },
        }
    }

    /// Takes a task that came to its end off its run queue and out of the
    /// table, and returns its last record.
    pub fn remove_task(&mut self, tid: Tid) -> (removed: Option<SchedTask>)
        requires
            old(self)@.wf(),
        ensures
            removed == (if old(self)@.tasks.contains_key(tid) {
                Some(SchedTask { on_rq: false, ..old(self)@.tasks[tid] })
            } else {
                None
            }),
            final(self)@ == old(self)@.without(tid),
            final(self)@.wf(),
    {
        let ghost before = self@;
        match self.active_tasks.get(tid) {
            None => None,
            Some(task) => {
                assert(before.task_wf(tid));
                let cpu: usize = task.run_queue;
                assert(before.queue_wf(cpu as int));
                let executor = executors_get_mut(&mut self.executors, cpu);
                executor.run_queue.remove_task(&mut self.active_tasks, tid);
                let removed: Option<SchedTask> = self.active_tasks.remove(tid);
                proof {
                    let after = self@;
                    assert(after.queues =~= before.queues.update(cpu as int, after.queues[cpu as int]));
                    assert(after.idle =~= before.idle);
                    assert(after.tasks.dom() =~= before.tasks.dom().remove(tid));
                    assert(after == before.without(tid));
                    assert forall|t: Tid, other: int|
                        set![tid].contains(t) && 0 <= other < before.queues.len() && other
                            != cpu implies !#[trigger] before.queues[other].weights.contains_key(
                        t,
                    ) by {
                        assert(before.queue_wf(other));
                    }
                    let q = after.queues[cpu as int];
                    assert(!q.runnable().contains(tid));
                    assert forall|t: Tid| #[trigger] q.weights.contains_key(t) implies {
                        &&& t != tid
                        &&& before.queues[cpu as int].weights.contains_key(t)
                    } by {
                        assert(q.runnable().contains(t));
                        assert(before.queues[cpu as int].runnable().contains(t));
                    }
                    assert forall|t: Tid| #[trigger] q.ready.contains_key(t) implies t != tid by {
                        assert(q.runnable().contains(t));
                    }
                    assert forall|t: Tid|
                        !set![tid].contains(t) && #[trigger] before.queues[cpu as int].weights.contains_key(
                            t,
                        ) implies q.weights.contains_key(t) by {
                        assert(before.queues[cpu as int].runnable().contains(t));
                        assert(q.runnable().contains(t));
                    }
                    lemma_local_step(before, after, cpu as int, set![tid]);
                }
                removed
            },
        }
    }
}

/// Why a task was not spawned.
#[derive(Clone, Copy, Debug, PartialEq, Eq, Structural)]
pub enum SpawnError {
    /// The niceness is not between `MIN_NICE` and `MAX_NICE`.
    InvalidNice,
    /// The scheduler has no such CPU.
    NoSuchCpu,
    /// The scheduler holds `MAX_TASKS` tasks already.
    TooManyTasks,
}

impl SystemView {
    /// The parent that spawn options name, if it is an active task.
    pub open spec fn parent_of(self, extra_options: SpawnExtraOptions) -> Option<Tid> {
        match extra_options {
            SpawnExtraOptions::Fork { parent_sched_task } => if self.tasks.contains_key(
                parent_sched_task,
            ) {
                Some(parent_sched_task)
            } else {
                None
            },
            SpawnExtraOptions::Fresh => None,
        }
    }

    /// The record with which a task of niceness `nice` is placed on the run
    /// queue of `cpu`: its virtual runtime starts from that of its parent,
    /// or from the floor of the queue, and `START_DEBIT` puts it no earlier
    /// than one slice after the floor.
    pub open spec fn placed(
        self,
        cpu: usize,
        nice: isize,
        extra_options: SpawnExtraOptions,
        tid: Tid,
    ) -> SchedTask {
        let seed = match self.parent_of(extra_options) {
            Some(parent) => self.tasks[parent].vruntime,
            None => self.queues[cpu as int].min_vruntime,
        };
        Executor::spec_new_task(self.queues[cpu as int], self.features, tid, nice, cpu, seed)
    }

    /// Whether a new task changes places with its parent: the policy is on,
    /// and the parent would come before the child.
    pub open spec fn child_goes_first(
        self,
        cpu: usize,
        nice: isize,
        extra_options: SpawnExtraOptions,
        tid: Tid,
    ) -> bool {
        self.child_runs_first && match self.parent_of(extra_options) {
            Some(parent) => self.tasks[parent].vruntime.spec_lt(
                self.placed(cpu, nice, extra_options, tid).vruntime,
            ),
            None => false,
        }
    }

    /// The scheduler after an active task got another virtual runtime: it
    /// stands in the record of the task and, if the task is ready, it is the
    /// key of the task on its run queue.
    pub open spec fn revalued(self, tid: Tid, vruntime: VRuntime) -> SystemView {
        let task = self.tasks[tid];
        let cpu = task.run_queue as int;
        SystemView {
            tasks: self.tasks.insert(tid, SchedTask { vruntime, ..task }),
            queues: self.queues.update(cpu, self.queues[cpu].rekeyed(tid, vruntime.spec_key())),
            ..self
        }
    }

    /// The scheduler after a task of niceness `nice` was spawned on `cpu`
    /// and got the identity `tid`: the task is in the table, on the run
    /// queue, ready. Where it changes places with its parent, each has the
    /// virtual runtime that was the other's.
    pub open spec fn spawned(
        self,
        cpu: usize,
        nice: isize,
        extra_options: SpawnExtraOptions,
        tid: Tid,
    ) -> SystemView {
        let child = self.placed(cpu, nice, extra_options, tid);
        let swap = self.child_goes_first(cpu, nice, extra_options, tid);
        let vruntime = if swap {
            self.tasks[self.parent_of(extra_options)->0].vruntime
        } else {
            child.vruntime
        };
        let base = if swap {
            self.revalued(self.parent_of(extra_options)->0, child.vruntime)
        } else {
            self
        };
        SystemView {
            tasks: base.tasks.insert(tid, SchedTask { on_rq: true, vruntime, ..child }),
            queues: base.queues.update(
                cpu as int,
                base.queues[cpu as int].inserted(
                    tid,
                    vruntime.spec_key(),
                    weight_of_nice(nice as int) as nat,
                ),
            ),
            ..base
        }
    }
}

impl SchedulerSystem {
    /// Gives an active task another virtual runtime.
    fn revalue(&mut self, tid: Tid, vruntime: VRuntime)
        requires
            old(self)@.wf(),
            old(self)@.tasks.contains_key(tid),
        ensures
            final(self)@ == old(self)@.revalued(tid, vruntime),
            final(self)@.wf(),
    {
        let ghost before = self@;
        if let Some(task) = self.active_tasks.get(tid) {
            let mut task = task;
            assert(before.task_wf(tid));
            let cpu: usize = task.run_queue;
            assert(before.queue_wf(cpu as int));
            task.vruntime = vruntime;
            self.active_tasks.set(tid, task);
            let executor = executors_get_mut(&mut self.executors, cpu);
            executor.run_queue.rekey(tid, vruntime);
            proof {
                let after = self@;
                assert(after.queues =~= before.queues.update(cpu as int, after.queues[cpu as int]));
                assert(after.idle =~= before.idle);
                assert(after.tasks.dom() =~= before.tasks.dom());
                assert(after == before.revalued(tid, vruntime));
                assert forall|t: Tid, other: int|
                    set![tid].contains(t) && 0 <= other < before.queues.len() && other
                        != cpu implies !#[trigger] before.queues[other].weights.contains_key(t) by {
                    assert(before.queue_wf(other));
                }
                assert(after.queues[cpu as int].runnable() =~= before.queues[cpu as int].runnable());
                lemma_local_step(before, after, cpu as int, set![tid]);
            }
        }
    }

    /// Spawns a task of niceness `nice` on the run queue of `cpu_id` and
    /// returns its identity. The caller keeps what runs the task under that
    /// identity. A niceness out of range, a CPU that does not exist and a
    /// full table are refused, in this order, and change nothing.
    pub fn spawn(&mut self, cpu_id: usize, nice: isize, extra_options: SpawnExtraOptions) -> (spawned:
        Result<Tid, SpawnError>)
        requires
            old(self)@.wf(),
        ensures
            final(self)@.wf(),
            match spawned {
                Ok(tid) => {
                    &&& valid_nice(nice as int)
                    &&& cpu_id < old(self)@.cpus()
                    &&& old(self)@.tasks.dom().len() < MAX_TASKS
                    &&& !old(self)@.tasks.contains_key(tid)
                    &&& final(self)@ == old(self)@.spawned(cpu_id, nice, extra_options, tid)
                },
                Err(error) => {
                    &&& final(self)@ == old(self)@
                    &&& error == (if !valid_nice(nice as int) {
                        SpawnError::InvalidNice
                    } else if cpu_id >= old(self)@.cpus() {
                        SpawnError::NoSuchCpu
                    } else {
                        SpawnError::TooManyTasks
                    })
                    &&& !valid_nice(nice as int) || cpu_id >= old(self)@.cpus() || old(
                        self,
                    )@.tasks.dom().len() >= MAX_TASKS
                },
            },
    {
        if nice < MIN_NICE || nice > MAX_NICE {
            return Err(SpawnError::InvalidNice);
        }
        if cpu_id >= executors_len(&self.executors) {
            return Err(SpawnError::NoSuchCpu);
        }
        if self.active_tasks.len() >= MAX_TASKS {
            return Err(SpawnError::TooManyTasks);
        }
        let ghost before = self@;
        assert(before.queue_wf(cpu_id as int));
        let parent: Option<SchedTask> = match extra_options {
            SpawnExtraOptions::Fork { parent_sched_task } => {
                let found: Option<SchedTask> = self.active_tasks.get(parent_sched_task);
                proof {
                    if found is Some {
                        assert(before.task_wf(parent_sched_task));
                    }
                }
                found
            },
            SpawnExtraOptions::Fresh => None,
        };
        assert(parent matches Some(task) ==> before.parent_of(extra_options) == Some(task.tid)
            && before.tasks[task.tid] == task);
        assert(parent is None ==> before.parent_of(extra_options) is None);
        let provisional: Tid = self.active_tasks.next_vacant();
        let executor = executors_get(&self.executors, cpu_id);
        let seed: VRuntime = match parent {
            Some(task) => task.vruntime,
            None => executor.run_queue.min_vruntime(),
        };
        proof {
            lemma_queue_within(before.queues[cpu_id as int], before.tasks);
            lemma_weight_bounds(nice as int);
        }
        let mut child: SchedTask = executor.new_task(self.features, provisional, nice, cpu_id, seed);
        if self.child_runs_first {
            if let Some(task) = parent {
                if task.vruntime.lt(child.vruntime) {
                    self.revalue(task.tid, child.vruntime);
                    child.vruntime = task.vruntime;
                }
            }
        }
        let ghost base = self@;
        assert(base.queue_wf(cpu_id as int));
        proof {
            lemma_queue_within(base.queues[cpu_id as int], base.tasks);
        }
        let executor = executors_get_mut(&mut self.executors, cpu_id);
        let tid: Tid = executor.enqueue_new(&mut self.active_tasks, child);
        proof {
            let after = self@;
            assert(after.queues =~= base.queues.update(cpu_id as int, after.queues[cpu_id as int]));
            assert(after.idle =~= base.idle);
            assert(after.tasks.dom() =~= base.tasks.dom().insert(tid));
            assert(base.tasks.dom() =~= before.tasks.dom());
            assert forall|t: Tid, other: int|
                set![tid].contains(t) && 0 <= other < base.queues.len() && other
                    != cpu_id implies !#[trigger] base.queues[other].weights.contains_key(t) by {
                assert(base.queue_wf(other));
            }
            assert(after.queues[cpu_id as int].weights.contains_key(tid));
            assert forall|t: Tid| #[trigger]
                after.queues[cpu_id as int].weights.contains_key(
                    t,
                ) implies after.tasks[t].run_queue == cpu_id by {
                if t != tid {
                    assert(base.queues[cpu_id as int].weights.contains_key(t));
                }
            }
            lemma_local_step(base, after, cpu_id as int, set![tid]);
            assert(SchedTask { tid, on_rq: true, ..child } == SchedTask {
                on_rq: true,
                vruntime: child.vruntime,
                ..before.placed(cpu_id, nice, extra_options, tid)
            });
            assert(after == before.spawned(cpu_id, nice, extra_options, tid));
        }
        Ok(tid)
    }
}

/// The order in which the CPU `cpu` of `cpus` looks at the others for work:
/// those after it, then those before it.
pub open spec fn scan_order(cpu: int, cpus: int) -> Seq<int> {
    Seq::new(
        (cpus - 1) as nat,
        |i: int|
            if cpu + 1 + i < cpus {
                cpu + 1 + i
            } else {
                cpu + 1 + i - cpus
            },
    )
}

impl SystemView {
    /// Whether the `i`-th CPU in the scan order of `cpu` is the first whose
    /// run queue has more than two runnable tasks.
    pub open spec fn victim_at(self, cpu: int, i: int) -> bool {
        let order = scan_order(cpu, self.queues.len() as int);
        &&& 0 <= i < order.len()
        &&& self.queues[order[i]].nr_running > 2
        &&& forall|j: int| 0 <= j < i ==> (#[trigger] self.queues[order[j]]).nr_running <= 2
    }

    /// The CPU from which `cpu` takes work: the first in its scan order
    /// whose run queue has more than two runnable tasks.
    pub open spec fn victim(self, cpu: int) -> Option<int> {
        if exists|i: int| self.victim_at(cpu, i) {
            Some(scan_order(cpu, self.queues.len() as int)[choose|i: int| self.victim_at(cpu, i)])
        } else {
            None
        }
    }

    /// Whether `after` is the scheduler after `cpu` took work over from
    /// `donor`: the two run queues and the table of tasks are as `is_steal`
    /// says, and nothing else has changed.
    pub open spec fn stole(self, cpu: int, donor: int, after: SystemView) -> bool {
        &&& after.queues.len() == self.queues.len()
        &&& forall|other: int|
            0 <= other < self.queues.len() && other != cpu && other != donor
                ==> #[trigger] after.queues[other] == self.queues[other]
        &&& is_steal(
            self.queues[cpu],
            self.queues[donor],
            self.tasks,
            after.queues[cpu],
            after.queues[donor],
            after.tasks,
            cpu as usize,
            (after.queues[cpu].nr_running - self.queues[cpu].nr_running) as nat,
        )
        &&& after.idle == self.idle
        &&& after.features == self.features
        &&& after.child_runs_first == self.child_runs_first
        &&& after.clock == self.clock
    }

    /// Whether `after` is the scheduler after `cpu` looked for work: it
    /// took work over from its victim, if there is one.
    pub open spec fn sought_work(self, cpu: int, after: SystemView) -> bool {
        match self.victim(cpu) {
            Some(donor) => self.stole(cpu, donor, after),
            None => after == self,
        }
    }

    /// Whether `after` is the scheduler after `cpu` made ready to pick a
    /// task: with fewer than two runnable tasks it looked for work.
    pub open spec fn made_ready(self, cpu: int, after: SystemView) -> bool {
        if self.queues[cpu].nr_running < 2 {
            self.sought_work(cpu, after)
        } else {
            after == self
        }
    }

    /// Whether `after` is the scheduler after `cpu` picked its next task at
    /// `now` and `next` is what it picked: nothing where no task is ready,
    /// and else a task as `RunQueueView::may_pick` says, which then runs.
    pub open spec fn popped(self, cpu: int, now: u64, after: SystemView, next: Option<Tid>) -> bool {
        let queue = self.queues[cpu];
        if queue.ready.dom().len() == 0 {
            next is None && after == (SystemView { clock: now, ..self })
        } else {
            let settled = queue.settled(self.tasks);
            let tasks = queue.tasks_settled(self.tasks);
            &&& next is Some
            &&& settled.may_pick(tasks, next->0)
            &&& after == (SystemView {
                tasks: tasks.insert(
                    next->0,
                    RunQueue::task_after_pick(
                        self.tasks[next->0],
                        settled.current != Some(next->0),
                        now,
                    ),
                ),
                queues: self.queues.update(cpu, settled.picked(next->0)),
                clock: now,
                ..self
            })
        }
    }
}

/// A steal keeps the scheduler well-formed.
pub proof fn lemma_steal_step(before: SystemView, after: SystemView, cpu: int, donor: int)
    requires
        before.wf(),
        0 <= cpu < before.queues.len(),
        0 <= donor < before.queues.len(),
        cpu != donor,
        before.stole(cpu, donor, after),
        after.queues[cpu].wf(),
        after.queues[donor].wf(),
        after.queues[cpu].agrees(after.tasks),
        after.queues[donor].agrees(after.tasks),
    ensures
        after.wf(),
{
    let thief0 = before.queues[cpu];
    let donor0 = before.queues[donor];
    let thief1 = after.queues[cpu];
    let donor1 = after.queues[donor];
    assert(before.queue_wf(cpu));
    assert(before.queue_wf(donor));
    assert forall|tid: Tid| donor0.gave(donor1, tid) implies before.tasks.contains_key(tid)
        && before.tasks[tid].run_queue == donor && donor0.weights.contains_key(tid) by {
        assert(donor0.runnable().contains(tid));
        assert(donor0.weights.contains_key(tid));
    }
    assert forall|tid: Tid| #[trigger] thief1.weights.contains_key(tid) implies after.tasks[tid].run_queue
        == cpu by {
        assert(thief1.runnable().contains(tid));
        assert(after.tasks.contains_key(tid));
        assert(before.tasks.contains_key(tid));
        if thief1.ready.contains_key(tid) && !thief0.ready.contains_key(tid) {
            assert(donor0.gave(donor1, tid));
            assert(after.tasks[tid] == rebased(
                before.tasks[tid],
                donor0.min_vruntime,
                thief0.min_vruntime,
                cpu as usize,
            ));
        } else {
            assert(thief0.runnable().contains(tid));
            assert(thief0.weights.contains_key(tid));
            assert(before.queues[cpu].weights.contains_key(tid));
            assert(before.tasks[tid].run_queue == cpu);
            if donor0.gave(donor1, tid) {
                assert(before.queues[donor].weights.contains_key(tid));
                assert(before.tasks[tid].run_queue == donor);
            }
            assert(after.tasks[tid] == before.tasks[tid]);
        }
    }
    assert forall|tid: Tid| #[trigger] donor1.weights.contains_key(tid) implies after.tasks[tid].run_queue
        == donor by {
        assert(donor1.runnable().contains(tid));
        assert(donor0.runnable().contains(tid));
        assert(donor0.weights.contains_key(tid));
        assert(!donor0.gave(donor1, tid));
    }
    assert forall|other: int| 0 <= other < after.queues.len() implies #[trigger] after.queue_wf(
        other,
    ) by {
        if other != cpu && other != donor {
            assert(before.queue_wf(other));
            assert(after.queues[other] == before.queues[other]);
            let q = before.queues[other];
            assert forall|tid: Tid| #[trigger] q.weights.contains_key(tid) implies {
                &&& after.tasks.contains_key(tid)
                &&& after.tasks[tid] == before.tasks[tid]
            } by {
                assert(before.tasks.contains_key(tid));
                assert(!donor0.gave(donor1, tid));
            }
            assert forall|tid: Tid| #[trigger] q.ready.contains_key(tid) implies {
                &&& after.tasks.contains_key(tid)
                &&& after.tasks[tid] == before.tasks[tid]
            } by {
                assert(q.runnable().contains(tid));
                assert(q.weights.contains_key(tid));
            }
        }
    }
    assert forall|tid: Tid| after.tasks.contains_key(tid) implies #[trigger] after.task_wf(
        tid,
    ) by {
        assert(before.tasks.contains_key(tid));
        assert(before.task_wf(tid));
        let task = before.tasks[tid];
        if donor0.gave(donor1, tid) {
            assert(thief1.ready.contains_key(tid));
            assert(thief1.runnable().contains(tid));
        } else if task.on_rq {
            let home = task.run_queue as int;
            if home == cpu {
                assert(thief0.runnable().contains(tid));
                if thief0.ready.contains_key(tid) {
                    assert(thief1.ready.contains_key(tid));
                }
                assert(thief1.runnable().contains(tid));
            } else if home == donor {
                assert(donor0.runnable().contains(tid));
                if donor0.ready.contains_key(tid) && !donor0.is_current(tid) {
                    assert(donor1.ready.contains_key(tid));
                }
                assert(donor1.runnable().contains(tid));
            } else {
                assert(after.queues[home] == before.queues[home]);
            }
        }
    }
}

impl SchedulerSystem {
    /// The CPUs at which `current_cpu_id` looks for work, in order: those
    /// after it, then those before it.
    pub fn other_run_queues(&self, current_cpu_id: usize) -> (order: Vec<usize>)
        requires
            current_cpu_id < self@.cpus(),
        ensures
            order@.len() == self@.cpus() - 1,
            forall|i: int|
                0 <= i < order@.len() ==> order@[i] == scan_order(
                    current_cpu_id as int,
                    self@.cpus() as int,
                )[i],
    {
        let len: usize = executors_len(&self.executors);
        let mut order: Vec<usize> = Vec::new();
        let mut cpu: usize = current_cpu_id + 1;
        while cpu < len
            invariant
                current_cpu_id < len,
                current_cpu_id + 1 <= cpu <= len,
                order@.len() == cpu - current_cpu_id - 1,
                forall|i: int|
                    0 <= i < order@.len() ==> order@[i] == scan_order(
                        current_cpu_id as int,
                        len as int,
                    )[i],
            decreases len - cpu,
        {
            order.push(cpu);
            cpu = cpu + 1;
        }
        cpu = 0;
        while cpu < current_cpu_id
            invariant
                current_cpu_id < len,
                cpu <= current_cpu_id,
                order@.len() == len - current_cpu_id - 1 + cpu,
                forall|i: int|
                    0 <= i < order@.len() ==> order@[i] == scan_order(
                        current_cpu_id as int,
                        len as int,
                    )[i],
            decreases current_cpu_id - cpu,
        {
            order.push(cpu);
            cpu = cpu + 1;
        }
        order
    }

    /// Looks for work for `cpu_id`: from the first CPU in its scan order
    /// whose run queue has more than two runnable tasks, it takes over up to
    /// half of the ready tasks. Returns the number of tasks taken.
    pub fn try_steal_tasks(&mut self, cpu_id: usize) -> (stolen: usize)
        requires
            old(self)@.wf(),
            cpu_id < old(self)@.cpus(),
        ensures
            old(self)@.sought_work(cpu_id as int, final(self)@),
            stolen == final(self)@.queues[cpu_id as int].nr_running - old(
                self,
            )@.queues[cpu_id as int].nr_running,
            final(self)@.wf(),
    {
        let ghost before = self@;
        let order: Vec<usize> = self.other_run_queues(cpu_id);
        let ghost spec_order = scan_order(cpu_id as int, before.cpus() as int);
        let mut i: usize = 0;
        let mut found: Option<usize> = None;
        while i < order.len() && found.is_none()
            invariant
                self@ == before,
                cpu_id < before.cpus(),
                spec_order == scan_order(cpu_id as int, before.cpus() as int),
                order@.len() == spec_order.len(),
                forall|k: int| 0 <= k < order@.len() ==> order@[k] == spec_order[k],
                i <= order@.len(),
                found is None ==> forall|j: int|
                    0 <= j < i ==> (#[trigger] before.queues[spec_order[j]]).nr_running <= 2,
                found matches Some(donor) ==> i < order@.len() && donor == spec_order[i as int]
                    && before.victim_at(cpu_id as int, i as int),
            decreases order@.len() - i + (if found is None { 1nat } else { 0nat }),
        {
            let donor: usize = order[i];
            assert(donor == spec_order[i as int]);
            assert(donor < before.cpus());
            if executors_get(&self.executors, donor).run_queue.nr_running() > 2 {
                found = Some(donor);
            } else {
                i = i + 1;
            }
        }
        match found {
            None => {
                proof {
                    assert forall|k: int| !before.victim_at(cpu_id as int, k) by {
                        if before.victim_at(cpu_id as int, k) {
                            assert(before.queues[spec_order[k]].nr_running <= 2);
                        }
                    }
                }
                0
            },
            Some(donor) => {
                proof {
                    let chosen = choose|k: int| before.victim_at(cpu_id as int, k);
                    assert(before.victim_at(cpu_id as int, chosen));
                    if chosen < i {
                        assert(before.queues[spec_order[chosen]].nr_running <= 2);
                    }
                    if i < chosen {
                        assert(before.queues[spec_order[i as int]].nr_running <= 2);
                    }
                    assert(before.victim(cpu_id as int) == Some(donor as int));
                    assert(donor != cpu_id);
                    assert(before.queue_wf(cpu_id as int));
                    assert(before.queue_wf(donor as int));
                    lemma_queue_within(before.queues[cpu_id as int], before.tasks);
                    lemma_queue_within(before.queues[donor as int], before.tasks);
                    assert(before.queues[cpu_id as int].runnable().disjoint(
                        before.queues[donor as int].runnable(),
                    )) by {
                        assert forall|t: Tid|
                            before.queues[cpu_id as int].runnable().contains(t)
                                && before.queues[donor as int].runnable().contains(
                                t,
                            ) implies false by {
                            assert(before.queues[cpu_id as int].weights.contains_key(t));
                            assert(before.queues[donor as int].weights.contains_key(t));
                        }
                    }
                }
                let mut spare: RunQueue = RunQueue::new();
                let lender = executors_get_mut(&mut self.executors, donor);
                core::mem::swap(&mut lender.run_queue, &mut spare);
                let ghost lent = executors_of(self.executors);
                let thief = executors_get_mut(&mut self.executors, cpu_id);
                let stolen: usize = thief.run_queue.steal_from(
                    &mut spare,
                    &mut self.active_tasks,
                    cpu_id,
                );
                let lender = executors_get_mut(&mut self.executors, donor);
                core::mem::swap(&mut lender.run_queue, &mut spare);
                proof {
                    let after = self@;
                    assert(after.queues.len() == before.queues.len());
                    assert(after.idle =~= before.idle);
                    assert(before.stole(cpu_id as int, donor as int, after));
                    lemma_steal_step(before, after, cpu_id as int, donor as int);
                }
                stolen
            },
        }
    }

    /// Picks the task that `cpu_id` runs next, at `now`. A CPU with fewer
    /// than two runnable tasks first looks for work at the others. Returns
    /// `None` where no task is ready, which does not happen while the idle
    /// task of the CPU is ready.
    pub fn pop_task_to_run(&mut self, cpu_id: usize, now: u64) -> (next: Option<Tid>)
        requires
            old(self)@.wf(),
            cpu_id < old(self)@.cpus(),
            old(self)@.clock <= now,
        ensures
            exists|mid: SystemView|
                {
                    &&& #[trigger] old(self)@.made_ready(cpu_id as int, mid)
                    &&& mid.wf()
                    &&& mid.popped(cpu_id as int, now, final(self)@, next)
                },
            final(self)@.wf(),
    {
        let ghost before = self@;
        if executors_get(&self.executors, cpu_id).run_queue.nr_running() < 2 {
            self.try_steal_tasks(cpu_id);
        }
        let ghost mid = self@;
        assert(mid.queue_wf(cpu_id as int));
        self.clock = now;
        proof {
            lemma_queue_within(mid.queues[cpu_id as int], mid.tasks);
            assert(mid.queues[cpu_id as int].not_after(mid.tasks, now)) by {
                assert forall|t: Tid| #[trigger]
                    mid.queues[cpu_id as int].ready.contains_key(t) && mid.tasks.contains_key(
                        t,
                    ) implies mid.tasks[t].exec_start <= now by {
                    assert(mid.task_wf(t));
                }
            }
        }
        let executor = executors_get_mut(&mut self.executors, cpu_id);
        let picked: Option<Tid> = executor.run_queue.pop_task_to_run(&mut self.active_tasks, now);
        let next: Tid = match picked {
            Some(next) => next,
            None => {
                proof {
                    let after = self@;
                    assert(after.queues =~= mid.queues);
                    assert(after == (SystemView { clock: now, ..mid }));
                    assert forall|c: int|
                        0 <= c < after.queues.len() implies #[trigger] after.queue_wf(c) by {
                        assert(mid.queue_wf(c));
                    }
                    assert forall|t: Tid|
                        after.tasks.contains_key(t) implies #[trigger] after.task_wf(t) by {
                        assert(mid.task_wf(t));
                    }
                    assert(mid.popped(cpu_id as int, now, after, None));
                    assert(before.made_ready(cpu_id as int, mid));
                }
                return None;
            },
        };
        proof {
            let after = self@;
            let queue = mid.queues[cpu_id as int];
            let settled = queue.settled(mid.tasks);
            assert(after.queues =~= mid.queues.update(cpu_id as int, after.queues[cpu_id as int]));
            assert(after.idle =~= mid.idle);
            assert(after.tasks.dom() =~= mid.tasks.dom());
            assert(mid.popped(cpu_id as int, now, after, Some(next)));
            let touched: Set<Tid> = match queue.current {
                Some(current) => set![current, next],
                None => set![next],
            };
            assert(queue.weights.contains_key(next)) by {
                assert(queue.ready.contains_key(next));
                assert(queue.runnable().contains(next));
            }
            assert forall|t: Tid, other: int|
                touched.contains(t) && 0 <= other < mid.queues.len() && other
                    != cpu_id implies !#[trigger] mid.queues[other].weights.contains_key(t) by {
                assert(mid.queue_wf(other));
                assert(queue.runnable().contains(t));
                assert(queue.weights.contains_key(t));
            }
            assert forall|t: Tid| #[trigger]
                after.queues[cpu_id as int].weights.contains_key(t) implies queue.weights.contains_key(
                t,
            ) by {
                assert(after.queues[cpu_id as int].runnable().contains(t));
                assert(settled.runnable().contains(t));
                assert(queue.runnable().contains(t));
            }
            assert forall|t: Tid|
                !touched.contains(t) && #[trigger] queue.weights.contains_key(
                    t,
                ) implies after.queues[cpu_id as int].weights.contains_key(t) by {
                assert(queue.runnable().contains(t));
                assert(settled.runnable().contains(t));
                assert(after.queues[cpu_id as int].runnable().contains(t));
            }
            assert forall|t: Tid|
                touched.contains(t) && after.tasks.contains_key(t) implies #[trigger] after.task_wf(
                t,
            ) by {
                assert(mid.task_wf(t));
                if after.tasks[t].on_rq {
                    assert(after.queues[cpu_id as int].runnable().contains(t));
                }
            }
            lemma_local_step(mid, after, cpu_id as int, touched);
            assert(before.made_ready(cpu_id as int, mid));
        }
        Some(next)
    }
}

} // verus!
