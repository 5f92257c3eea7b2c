//! The table of active tasks: an arena of the crate `vec_arena`, in which a
//! task's identity is the index of its slot.

use crate::task::{SchedTask, Tid};
use vec_arena::Arena;
use vstd::prelude::*;

verus! {

/// `vec_arena::Arena`: an opaque value, of which `arena_contents` says what
/// it holds.
#[verifier::external_type_specification]
#[verifier::external_body]
#[verifier::reject_recursive_types(T)]
pub struct ExArena<T>(Arena<T>);

/// The task in each occupied slot of an arena.
pub uninterp spec fn arena_contents(arena: Arena<SchedTask>) -> Map<usize, SchedTask>;

/// The slot that the next insertion into an arena fills.
pub uninterp spec fn arena_next_vacant(arena: Arena<SchedTask>) -> usize;

/// `Arena::new`: an arena with no occupied slot.
#[verifier::external_body]
#[allow(deprecated)]
fn arena_new() -> (arena: Arena<SchedTask>)
    ensures
        arena_contents(arena) =~= Map::empty(),
{
    Arena::new()
}

/// `Arena::len`: the number of occupied slots.
#[verifier::external_body]
#[allow(deprecated)]
fn arena_len(arena: &Arena<SchedTask>) -> (len: usize)
    ensures
        len == arena_contents(*arena).dom().len(),
{
    arena.len()
}

/// `Arena::next_vacant`: the slot that the next insertion fills, which is
/// not occupied.
#[verifier::external_body]
#[allow(deprecated)]
fn arena_peek_vacant(arena: &Arena<SchedTask>) -> (index: usize)
    ensures
        index == arena_next_vacant(*arena),
        !arena_contents(*arena).contains_key(index),
{
    arena.next_vacant()
}

/// `Arena::insert`: the task fills the next vacant slot, whose index is
/// returned.
#[verifier::external_body]
#[allow(deprecated)]
fn arena_insert(arena: &mut Arena<SchedTask>, task: SchedTask) -> (index: usize)
    ensures
        index == arena_next_vacant(*old(arena)),
        !arena_contents(*old(arena)).contains_key(index),
        arena_contents(*final(arena)) == arena_contents(*old(arena)).insert(index, task),
{
    arena.insert(task)
}

/// `Arena::remove`: the slot is vacant afterwards; the task that was in it
/// is returned.
#[verifier::external_body]
#[allow(deprecated)]
fn arena_remove(arena: &mut Arena<SchedTask>, index: usize) -> (removed: Option<SchedTask>)
    ensures
        arena_contents(*final(arena)) == arena_contents(*old(arena)).remove(index),
        removed == (if arena_contents(*old(arena)).contains_key(index) {
            Some(arena_contents(*old(arena))[index])
        } else {
            None
        }),
{
    arena.remove(index)
}

/// `Arena::get`: the task in the slot, or `None` where the slot is vacant
/// or out of bounds.
#[verifier::external_body]
#[allow(deprecated)]
fn arena_get(arena: &Arena<SchedTask>, index: usize) -> (found: Option<SchedTask>)
    ensures
        found == (if arena_contents(*arena).contains_key(index) {
            Some(arena_contents(*arena)[index])
        } else {
            None
        }),
{
    arena.get(index).copied()
}

/// `Arena::index_mut`, written to: the task in an occupied slot is
/// replaced.
#[verifier::external_body]
#[allow(deprecated)]
fn arena_set(arena: &mut Arena<SchedTask>, index: usize, task: SchedTask)
    requires
        arena_contents(*old(arena)).contains_key(index),
    ensures
        arena_contents(*final(arena)) == arena_contents(*old(arena)).insert(index, task),
{
    arena[index] = task;
}

/// The table of active tasks.
pub struct TaskTable {
    arena: Arena<SchedTask>,
}

impl View for TaskTable {
    type V = Map<Tid, SchedTask>;

    closed spec fn view(&self) -> Map<Tid, SchedTask> {
        arena_contents(self.arena)
    }
}

impl TaskTable {
    /// The identity that the next task gets.
    pub closed spec fn spec_next_vacant(&self) -> Tid {
        arena_next_vacant(self.arena)
    }

    /// A table without tasks.
    pub fn new() -> (table: TaskTable)
        ensures
            table@ == Map::<Tid, SchedTask>::empty(),
    {
        TaskTable { arena: arena_new() }
    }

    /// The number of tasks.
    pub fn len(&self) -> (len: usize)
        ensures
            len == self@.dom().len(),
    {
        arena_len(&self.arena)
    }

    /// The identity that the next task gets. No task has it now.
    pub fn next_vacant(&self) -> (tid: Tid)
        ensures
            tid == self.spec_next_vacant(),
            !self@.contains_key(tid),
    {
        arena_peek_vacant(&self.arena)
    }

    /// Puts a task in the table and returns its identity.
    pub fn insert(&mut self, task: SchedTask) -> (tid: Tid)
        ensures
            tid == old(self).spec_next_vacant(),
            !old(self)@.contains_key(tid),
            final(self)@ == old(self)@.insert(tid, task),
    {
        arena_insert(&mut self.arena, task)
    }

    /// Takes a task out of the table.
    pub fn remove(&mut self, tid: Tid) -> (removed: Option<SchedTask>)
        ensures
            final(self)@ == old(self)@.remove(tid),
            removed == (if old(self)@.contains_key(tid) {
                Some(old(self)@[tid])
            } else {
                None
            }),
    {
        arena_remove(&mut self.arena, tid)
    }

    /// The task of the given identity.
    pub fn get(&self, tid: Tid) -> (found: Option<SchedTask>)
        ensures
            found == (if self@.contains_key(tid) {
                Some(self@[tid])
            } else {
                None
            }),
    {
        arena_get(&self.arena, tid)
    }

    /// Replaces the record of a task of the table; a task that is not in
    /// the table is not put in.
    pub fn set(&mut self, tid: Tid, task: SchedTask) -> (replaced: bool)
        ensures
            replaced == old(self)@.contains_key(tid),
            final(self)@ == (if replaced {
                old(self)@.insert(tid, task)
            } else {
                old(self)@
            }),
    {
        if arena_get(&self.arena, tid).is_some() {
            arena_set(&mut self.arena, tid, task);
            true
        } else {
            false
        }
    }
}

} // verus!
