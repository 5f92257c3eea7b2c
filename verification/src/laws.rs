//! What holds of the scheduler whatever it is asked to do.

use crate::executor::{SpawnExtraOptions, SystemView, MAX_TASKS};
use crate::features::SchedFeatures;
use crate::run_queue::{is_steal, lemma_queue_within, total_weight, RunQueueView};
use crate::task::{SchedTask, Tid};
use crate::vruntime::{
    lemma_delta_adds, lemma_delta_antisymmetric, lemma_delta_of_advance, lemma_max_is_upper,
};
use crate::weight::{
    inv_weight_of, lemma_calc_delta_bound, lemma_inv_weight_bounds, lemma_load_of_weight,
    lemma_weight_bounds, valid_nice, weight_of_nice, LoadWeight, NICE_0_WEIGHT, SCHED_LATENCY,
    SCHED_MIN_GRANULARITY,
};
use vstd::prelude::*;

verus! {

/// A task of lower niceness has the higher weight, and gathers virtual
/// time no faster: the same time on the CPU is worth no more to it than to a
/// task of higher niceness.
pub proof fn lemma_nicer_gathers_faster(nice1: int, nice2: int, delta_exec: u64)
    requires
        valid_nice(nice1),
        valid_nice(nice2),
        nice1 <= nice2,
        69 * delta_exec <= u64::MAX,
    ensures
        weight_of_nice(nice1) >= weight_of_nice(nice2),
        nice1 < nice2 ==> weight_of_nice(nice1) > weight_of_nice(nice2),
        SchedTask::delta_fair_of(weight_of_nice(nice1) as nat, delta_exec)
            <= SchedTask::delta_fair_of(weight_of_nice(nice2) as nat, delta_exec),
{
    let heavy = weight_of_nice(nice1);
    let light = weight_of_nice(nice2);
    crate::weight::lemma_weight_decreases(nice1, nice2);
    lemma_weight_bounds(nice1);
    lemma_weight_bounds(nice2);
    lemma_inv_weight_bounds(light);
    let own = inv_weight_of(light);
    assert(NICE_0_WEIGHT * own <= 69 * 0x1_0000_0000) by (nonlinear_arith)
        requires
            own * light <= 0x1_0000_0000,
            light >= 15,
            NICE_0_WEIGHT == 1024,
    ;
    crate::weight::lemma_calc_delta_monotone(delta_exec, NICE_0_WEIGHT, heavy, light, 69);
    lemma_delta_fair_at_nice_0(delta_exec);
}

/// At the weight of nice 0 the fixed-point computation gives the time
/// itself, which is what `delta_fair` returns there without computing.
pub proof fn lemma_delta_fair_at_nice_0(delta_exec: u64)
    ensures
        crate::weight::calc_delta_spec(delta_exec, NICE_0_WEIGHT, inv_weight_of(NICE_0_WEIGHT))
            == delta_exec,
{
    vstd::arithmetic::power2::lemma2_to64();
    let x: nat = 0x1_0000_0000;
    assert((NICE_0_WEIGHT as nat) * (inv_weight_of(NICE_0_WEIGHT) as nat) == x);
    assert(crate::weight::fit32(x) == 0x8000_0000 && crate::weight::excess_bits(x) == 1) by {
        reveal_with_fuel(crate::weight::fit32, 2);
        reveal_with_fuel(crate::weight::excess_bits, 2);
    }
    crate::weight::lemma_delta_excess_bound(NICE_0_WEIGHT, inv_weight_of(NICE_0_WEIGHT));
    let d: nat = delta_exec as nat;
    assert(vstd::arithmetic::power2::pow2(31) == 0x8000_0000);
    assert((d * 0x8000_0000) / 0x8000_0000 == d) by (nonlinear_arith);
    assert(d % 0x1_0000_0000_0000_0000 == d);
}

/// No task is ready or running on the run queues of two CPUs.
pub proof fn lemma_no_double_residency(s: SystemView, cpu1: int, cpu2: int, tid: Tid)
    requires
        s.wf(),
        s.resides(cpu1, tid),
        s.resides(cpu2, tid),
    ensures
        cpu1 == cpu2,
{
    assert(s.queue_wf(cpu1));
    assert(s.queue_wf(cpu2));
    assert(s.queues[cpu1].weights.contains_key(tid));
    assert(s.queues[cpu2].weights.contains_key(tid));
}

/// A task is marked as on a run queue exactly if it is ready or running on
/// the run queue that its record names.
pub proof fn lemma_on_rq_is_residency(s: SystemView, tid: Tid)
    requires
        s.wf(),
        s.tasks.contains_key(tid),
    ensures
        s.tasks[tid].on_rq <==> s.resides(s.tasks[tid].run_queue as int, tid),
        forall|cpu: int| s.resides(cpu, tid) ==> cpu == s.tasks[tid].run_queue,
{
    let home = s.tasks[tid].run_queue as int;
    assert(s.task_wf(tid));
    assert(s.queue_wf(home));
    if s.resides(home, tid) {
        assert(s.queues[home].weights.contains_key(tid));
    }
    assert forall|cpu: int| s.resides(cpu, tid) implies cpu == s.tasks[tid].run_queue by {
        assert(s.queue_wf(cpu));
        assert(s.queues[cpu].weights.contains_key(tid));
    }
}

/// Every runnable task of a run queue is counted once in `nr_running`, and
/// with the weight of its record in `load`.
pub proof fn lemma_accounted_once(s: SystemView, cpu: int)
    requires
        s.wf(),
        0 <= cpu < s.queues.len(),
    ensures
        s.queues[cpu].nr_running == s.queues[cpu].runnable().len(),
        s.queues[cpu].load == total_weight(s.queues[cpu].weights),
        s.queues[cpu].weights.dom() == s.queues[cpu].runnable(),
        forall|tid: Tid| #[trigger]
            s.queues[cpu].runnable().contains(tid) ==> s.tasks.contains_key(tid)
                && s.queues[cpu].weights[tid] == s.tasks[tid].load@,
        s.queues[cpu].nr_running <= MAX_TASKS,
{
    assert(s.queue_wf(cpu));
    assert forall|tid: Tid| #[trigger] s.queues[cpu].runnable().contains(tid) implies s.tasks.contains_key(
        tid,
    ) && s.queues[cpu].weights[tid] == s.tasks[tid].load@ by {
        assert(s.queues[cpu].weights.contains_key(tid));
    }
    lemma_queue_within(s.queues[cpu], s.tasks);
}

/// A CPU whose idle task is ready is given a task to run: `pop_task_to_run`
/// does not return `None`.
pub proof fn lemma_idle_never_empty(
    before: SystemView,
    mid: SystemView,
    after: SystemView,
    cpu: int,
    now: u64,
    next: Option<Tid>,
)
    requires
        before.wf(),
        before.idle_ready(cpu),
        before.made_ready(cpu, mid),
        mid.wf(),
        mid.popped(cpu, now, after, next),
    ensures
        next is Some,
{
    let idle = before.idle[cpu];
    assert(mid.queues[cpu].ready.contains_key(idle) && mid.queues.len() == before.queues.len());
    assert(mid.queue_wf(cpu));
    assert(mid.queues[cpu].ready.dom().contains(idle));
    assert(mid.queues[cpu].ready.dom().len() != 0);
}

/// A task that is woken on its own run queue is ready there: the idle task
/// of a CPU, which wakes itself each time it runs, is ready again when it
/// has run.
pub proof fn lemma_woken_is_ready(s: SystemView, tid: Tid)
    requires
        s.wf(),
        s.tasks.contains_key(tid),
    ensures
        s.woken(tid).queues[s.tasks[tid].run_queue as int].ready.contains_key(tid),
        s.woken(tid).tasks[tid].on_rq,
{
    assert(s.task_wf(tid));
}

/// A running task that is ready again, and has run for less than the
/// minimal granularity and no longer than its slice since it was picked, is
/// picked again, however far ahead of the others it is.
pub proof fn lemma_granularity_floor(
    q: RunQueueView,
    tasks: Map<Tid, SchedTask>,
    current: Tid,
    next: Tid,
)
    requires
        q.current == Some(current),
        q.ready.contains_key(current),
        q.nr_running >= 2,
        tasks[current].on_rq,
        tasks[current].sum_exec_runtime - tasks[current].prev_sum_exec_runtime
            < SCHED_MIN_GRANULARITY,
        tasks[current].sum_exec_runtime - tasks[current].prev_sum_exec_runtime <= q.slice_of(
            tasks[current],
        ),
        q.may_pick(tasks, next),
    ensures
        !q.preempts(tasks[current]),
        next == current,
{
}

/// A task that wakes up is at most the sleeper's credit behind the floor of
/// its run queue, however long it slept; the credit is at most the latency
/// target; and the task is not put back behind where it was.
pub proof fn lemma_sleeper_credit_bound(s: SystemView, tid: Tid)
    requires
        s.wf(),
        s.tasks.contains_key(tid),
    ensures
        s.woken(tid).tasks[tid].vruntime == s.wake_vruntime(s.tasks[tid]),
        s.sleeper_credit() <= SCHED_LATENCY,
        s.queues[s.tasks[tid].run_queue as int].min_vruntime.spec_delta(
            s.wake_vruntime(s.tasks[tid]),
        ) <= s.sleeper_credit(),
        s.tasks[tid].vruntime.spec_delta(
            s.queues[s.tasks[tid].run_queue as int].min_vruntime.spec_retreat(s.sleeper_credit()),
        ) != -0x8000_0000_0000_0000 ==> s.wake_vruntime(s.tasks[tid]).spec_delta(
            s.tasks[tid].vruntime,
        ) >= 0,
{
    let task = s.tasks[tid];
    let floor = s.queues[task.run_queue as int].min_vruntime;
    let credit = s.sleeper_credit();
    let least = floor.spec_retreat(credit);
    let woken = s.wake_vruntime(task);
    lemma_max_is_upper(task.vruntime, least);
    lemma_delta_of_advance(floor, credit);
    if woken != least {
        lemma_delta_antisymmetric(task.vruntime, least);
        lemma_delta_adds(floor, least, task.vruntime);
    }
}

/// Bringing the floor of a run queue up to date never puts it back, unless
/// the earliest virtual runtime on the queue is exactly half the clock away
/// from the floor.
pub proof fn lemma_floor_never_goes_back(q: RunQueueView, tasks: Map<Tid, SchedTask>)
    requires
        q.earliest(q.current_in(tasks)) matches Some(v) ==> q.min_vruntime.spec_delta(v)
            != -0x8000_0000_0000_0000,
    ensures
        q.refloored(tasks).min_vruntime.spec_delta(q.min_vruntime) >= 0,
{
    lemma_delta_antisymmetric(q.min_vruntime, q.min_vruntime);
    if let Some(v) = q.earliest(q.current_in(tasks)) {
        lemma_max_is_upper(q.min_vruntime, v);
    }
}

/// The floor of a run queue moves only when it is brought up to date:
/// counting a task in or out, giving a task another key and picking a task
/// leave it where it is.
pub proof fn lemma_floor_moves_by_refloor_only(
    q: RunQueueView,
    tasks: Map<Tid, SchedTask>,
    tid: Tid,
    key: i64,
    weight: nat,
    thresh: u64,
)
    ensures
        q.inserted(tid, key, weight).min_vruntime == q.min_vruntime,
        q.removed(tid).min_vruntime == q.min_vruntime,
        q.rekeyed(tid, key).min_vruntime == q.min_vruntime,
        q.picked(tid).min_vruntime == q.min_vruntime,
        q.after_push(tasks, tid, thresh).min_vruntime == q.min_vruntime,
        q.after_remove(tasks, tid) == q || q.after_remove(tasks, tid) == q.removed(tid).refloored(
            tasks,
        ),
        q.after_tick(tasks, tid) == q || q.after_tick(tasks, tid) == q.rekeyed(
            tid,
            tasks[tid].vruntime.spec_key(),
        ).refloored(tasks),
{
}

/// Putting a task on a run queue, waking one and spawning one leave the
/// floor of every run queue where it is.
pub proof fn lemma_floor_stays(
    s: SystemView,
    tid: Tid,
    cpu: usize,
    nice: isize,
    extra_options: SpawnExtraOptions,
    other: int,
)
    requires
        s.wf(),
        0 <= other < s.queues.len(),
        cpu < s.queues.len(),
    ensures
        s.tasks.contains_key(tid) ==> s.woken(tid).queues[other].min_vruntime
            == s.queues[other].min_vruntime,
        !s.tasks.contains_key(tid) ==> s.spawned(cpu, nice, extra_options, tid).queues[other].min_vruntime
            == s.queues[other].min_vruntime,
{
    if s.tasks.contains_key(tid) {
        assert(s.task_wf(tid));
    } else {
        if let Some(parent) = s.parent_of(extra_options) {
            assert(s.task_wf(parent));
        }
    }
}

/// A steal moves tasks and loses none: the two run queues together count as
/// many tasks and as much load after it as before, neither floor moves, and
/// the running task of the donor stays where it is. A donor that had more
/// than two runnable tasks keeps at least two; and where its running task
/// was not among its ready tasks, at least one task is taken.
pub proof fn lemma_steal_conserves(
    thief0: RunQueueView,
    donor0: RunQueueView,
    tasks0: Map<Tid, SchedTask>,
    thief: RunQueueView,
    donor: RunQueueView,
    tasks: Map<Tid, SchedTask>,
    cpu: usize,
    stolen: nat,
)
    requires
        donor0.wf(),
        is_steal(thief0, donor0, tasks0, thief, donor, tasks, cpu, stolen),
    ensures
        thief.nr_running + donor.nr_running == thief0.nr_running + donor0.nr_running,
        thief.load + donor.load == thief0.load + donor0.load,
        thief.min_vruntime == thief0.min_vruntime,
        donor.min_vruntime == donor0.min_vruntime,
        donor.current == donor0.current,
        forall|tid: Tid| donor0.is_current(tid) ==> !donor0.gave(donor, tid),
        tasks.dom() == tasks0.dom(),
        donor0.nr_running > 2 ==> donor.nr_running >= 2,
        donor0.nr_running > 2 && (donor0.current matches Some(tid)
            ==> !donor0.ready.contains_key(tid)) ==> stolen >= 1,
{
    let len = donor0.ready.dom().len();
    assert(donor0.ready.dom().subset_of(donor0.runnable()));
    assert(donor0.runnable().finite());
    vstd::set_lib::lemma_len_subset(donor0.ready.dom(), donor0.runnable());
    if donor0.nr_running > 2 && (donor0.current matches Some(tid) ==> !donor0.ready.contains_key(
        tid,
    )) {
        match donor0.current {
            Some(tid) => {
                assert(donor0.runnable() == donor0.ready.dom().insert(tid));
                assert(donor0.runnable().len() == len + 1);
            },
            None => {},
        }
        assert(len >= 2);
    }
}

/// A CPU that looks for work changes the run queue of its victim and its
/// own, and no other; between them the two count as many tasks after it as
/// before.
pub proof fn lemma_sought_work_conserves(before: SystemView, after: SystemView, cpu: int)
    requires
        before.wf(),
        0 <= cpu < before.queues.len(),
        before.sought_work(cpu, after),
    ensures
        after.queues.len() == before.queues.len(),
        after.tasks.dom() == before.tasks.dom(),
        match before.victim(cpu) {
            Some(donor) => {
                &&& 0 <= donor < before.queues.len()
                &&& donor != cpu
                &&& before.queues[donor].nr_running > 2
                &&& after.queues[cpu].nr_running + after.queues[donor].nr_running
                    == before.queues[cpu].nr_running + before.queues[donor].nr_running
                &&& after.queues[donor].nr_running >= 2
                &&& forall|other: int|
                    0 <= other < before.queues.len() && other != cpu && other != donor
                        ==> #[trigger] after.queues[other] == before.queues[other]
            },
            None => after == before,
        },
{
    if let Some(donor) = before.victim(cpu) {
        let i = choose|i: int| before.victim_at(cpu, i);
        assert(before.victim_at(cpu, i));
        assert(before.queue_wf(donor));
        lemma_steal_conserves(
            before.queues[cpu],
            before.queues[donor],
            before.tasks,
            after.queues[cpu],
            after.queues[donor],
            after.tasks,
            cpu as usize,
            (after.queues[cpu].nr_running - before.queues[cpu].nr_running) as nat,
        );
    }
}

/// With `START_DEBIT`, a new task that does not change places with its
/// parent is not placed before the floor of its run queue, as long as the
/// virtual runtime that it starts from is less than a quarter of the clock
/// away from the floor.
pub proof fn lemma_start_debit(
    s: SystemView,
    cpu: usize,
    nice: isize,
    extra_options: SpawnExtraOptions,
    tid: Tid,
)
    requires
        s.wf(),
        cpu < s.queues.len(),
        valid_nice(nice as int),
        s.features.spec_contains(SchedFeatures::START_DEBIT),
        !s.child_goes_first(cpu, nice, extra_options, tid),
        s.parent_of(extra_options) matches Some(parent) ==> -0x4000_0000_0000_0000
            < s.tasks[parent].vruntime.spec_delta(s.queues[cpu as int].min_vruntime)
            < 0x4000_0000_0000_0000,
    ensures
        s.spawned(cpu, nice, extra_options, tid).tasks[tid].vruntime.spec_delta(
            s.queues[cpu as int].min_vruntime,
        ) >= 0,
{
    let q = s.queues[cpu as int];
    let floor = q.min_vruntime;
    let seed = match s.parent_of(extra_options) {
        Some(parent) => s.tasks[parent].vruntime,
        None => floor,
    };
    let weight = weight_of_nice(nice as int);
    let fresh = SchedTask {
        tid,
        load: LoadWeight::of(weight),
        nice,
        on_rq: false,
        run_queue: cpu,
        exec_start: 0,
        sum_exec_runtime: 0,
        prev_sum_exec_runtime: 0,
        vruntime: seed,
    };
    lemma_load_of_weight(weight);
    lemma_weight_bounds(nice as int);
    assert(s.queue_wf(cpu as int));
    lemma_queue_within(q, s.tasks);
    lemma_vslice_bound(q, fresh);
    let vslice = q.vslice_of(fresh);
    let debit = floor.spec_advance(vslice);
    lemma_delta_of_advance(floor, vslice);
    lemma_delta_antisymmetric(floor, floor);
    lemma_delta_antisymmetric(debit, floor);
    lemma_max_is_upper(seed, debit);
    if seed.spec_max(debit) == seed && seed != debit {
        lemma_delta_adds(seed, floor, debit);
    }
}

/// The slice of a task in virtual time is far below a quarter of the clock,
/// on a run queue that counts no more than `MAX_TASKS` tasks.
pub proof fn lemma_vslice_bound(q: RunQueueView, task: SchedTask)
    requires
        15 <= task.load@ <= 88761,
        q.nr_running <= MAX_TASKS,
        q.load <= 88761 * MAX_TASKS,
        task.on_rq ==> q.load >= task.load@,
    ensures
        q.slice_of(task) <= (MAX_TASKS + 1) * SCHED_MIN_GRANULARITY,
        q.vslice_of(task) <= 69 * ((MAX_TASKS + 1) * SCHED_MIN_GRANULARITY),
        q.vslice_of(task) < 0x4000_0000_0000_0000,
{
    let nr = if task.on_rq {
        q.nr_running
    } else {
        q.nr_running + 1
    };
    let load: nat = if task.on_rq {
        q.load
    } else {
        q.load + task.load@
    };
    let period = crate::weight::sched_period_spec(nr);
    let weight = task.load@ as u64;
    let inv = inv_weight_of(load as u64);
    lemma_inv_weight_bounds(load as u64);
    assert(period <= (MAX_TASKS + 1) * SCHED_MIN_GRANULARITY) by (nonlinear_arith)
        requires
            nr <= MAX_TASKS + 1,
            period == crate::weight::sched_period_spec(nr),
    ;
    if load <= crate::weight::WMULT_CONST {
        assert(weight * inv <= 1 * 0x1_0000_0000) by (nonlinear_arith)
            requires
                weight <= load,
                inv * (load as u64) <= 0x1_0000_0000,
                load <= u64::MAX,
        ;
    } else {
        assert(inv == 1);
    }
    lemma_calc_delta_bound(period as u64, weight, inv, 1);
    let slice = q.slice_of(task);
    if task.load@ != NICE_0_WEIGHT {
        let own = inv_weight_of(weight);
        lemma_inv_weight_bounds(weight);
        assert(NICE_0_WEIGHT * own <= 69 * 0x1_0000_0000) by (nonlinear_arith)
            requires
                own * weight <= 0x1_0000_0000,
                weight >= 15,
                NICE_0_WEIGHT == 1024,
        ;
        lemma_calc_delta_bound(slice, NICE_0_WEIGHT, own, 69);
    }
}

} // verus!
