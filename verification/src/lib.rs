//! The core of a small kernel, verified: a completely fair scheduler for
//! cooperative tasks on several CPUs, and the arithmetic of a few things
//! around it.
//!
//! The scheduler orders tasks by virtual runtime, the time that a task has
//! run scaled by the inverse of its weight. Each CPU has a run queue
//! ([`run_queue`]) with the tasks that are ready, the task that runs, and a
//! floor under their virtual runtimes; the scheduler ([`executor`]) holds the
//! run queues and the table of tasks ([`tasks`]), spawns and wakes tasks,
//! picks the next task of a CPU, charges a task for its run, and moves tasks
//! from a busy CPU to an idle one. What holds of it at all times is stated in
//! [`laws`]. A plainer queue for one CPU, without load, is in [`task_queue`].
//!
//! The scheduler decides and runs nothing: its caller holds what is run,
//! reads the clock, and tells the scheduler what happened.

pub mod drivers;
pub mod executor;
pub mod features;
pub mod file;
pub mod laws;
pub mod memory;
pub mod num;
pub mod queue;
pub mod run_queue;
pub mod task;
pub mod task_queue;
pub mod tasks;
pub mod timer;
pub mod vruntime;
pub mod weight;
