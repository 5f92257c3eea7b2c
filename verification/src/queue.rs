//! The ready set of a run queue: a max-first priority queue of the crate
//! `priority_queue`, keyed by task and ordered by an integer key.
//!
//! Nothing in this file is proved: each function hands one call to the
//! outside crate, and its contract says what that crate documents of it.

use ahash::RandomState;
use priority_queue::PriorityQueue;
use vstd::prelude::*;

verus! {

/// `ahash::RandomState`, the hasher of the queue: an opaque value.
#[verifier::external_type_specification]
#[verifier::external_body]
pub struct ExRandomState(RandomState);

/// `priority_queue::PriorityQueue`: an opaque value, of which
/// `queue_contents` says what it holds.
#[verifier::external_type_specification]
#[verifier::external_body]
#[verifier::reject_recursive_types(I)]
#[verifier::reject_recursive_types(P)]
#[verifier::reject_recursive_types(H)]
pub struct ExPriorityQueue<I, P, H>(PriorityQueue<I, P, H>) where I: core::hash::Hash + Eq, P: Ord;

/// The key of each task that a queue holds.
pub uninterp spec fn queue_contents(q: PriorityQueue<usize, i64, RandomState>) -> Map<usize, i64>;

/// Whether `entry` is a task of `contents` with its key, and no task of
/// `contents` has a greater key.
pub open spec fn is_greatest(contents: Map<usize, i64>, entry: (usize, i64)) -> bool {
    &&& contents.contains_key(entry.0)
    &&& contents[entry.0] == entry.1
    &&& forall|tid: usize| #[trigger] contents.contains_key(tid) ==> contents[tid] <= entry.1
}

/// `PriorityQueue::with_default_hasher`: a queue that holds nothing.
#[verifier::external_body]
pub(crate) fn queue_new() -> (q: PriorityQueue<usize, i64, RandomState>)
    ensures
        queue_contents(q) =~= Map::empty(),
{
    PriorityQueue::with_default_hasher()
}

/// `PriorityQueue::len`: the number of tasks in the queue.
#[verifier::external_body]
pub(crate) fn queue_len(q: &PriorityQueue<usize, i64, RandomState>) -> (len: usize)
    ensures
        len == queue_contents(*q).dom().len(),
{
    q.len()
}

/// `PriorityQueue::push`: the task is in the queue with the given key,
/// whether or not it was there before; the key that it had before is
/// returned.
#[verifier::external_body]
pub(crate) fn queue_push(
    q: &mut PriorityQueue<usize, i64, RandomState>,
    tid: usize,
    key: i64,
) -> (replaced: Option<i64>)
    ensures
        queue_contents(*final(q)) == queue_contents(*old(q)).insert(tid, key),
        replaced == (if queue_contents(*old(q)).contains_key(tid) {
            Some(queue_contents(*old(q))[tid])
        } else {
            None
        }),
{
    q.push(tid, key)
}

/// `PriorityQueue::remove`: the task is no longer in the queue; where it
/// was, it is returned with its key.
#[verifier::external_body]
pub(crate) fn queue_remove(q: &mut PriorityQueue<usize, i64, RandomState>, tid: usize) -> (removed:
    Option<(usize, i64)>)
    ensures
        queue_contents(*final(q)) == queue_contents(*old(q)).remove(tid),
        removed == (if queue_contents(*old(q)).contains_key(tid) {
            Some((tid, queue_contents(*old(q))[tid]))
        } else {
            None
        }),
{
    q.remove(&tid)
}

/// `PriorityQueue::change_priority`: a task of the queue gets the given
/// key, and the key that it had is returned; a task that is not in the
/// queue is not put in.
#[verifier::external_body]
pub(crate) fn queue_change_priority(
    q: &mut PriorityQueue<usize, i64, RandomState>,
    tid: usize,
    key: i64,
) -> (replaced: Option<i64>)
    ensures
        queue_contents(*final(q)) == (if queue_contents(*old(q)).contains_key(tid) {
            queue_contents(*old(q)).insert(tid, key)
        } else {
            queue_contents(*old(q))
        }),
        replaced == (if queue_contents(*old(q)).contains_key(tid) {
            Some(queue_contents(*old(q))[tid])
        } else {
            None
        }),
{
    q.change_priority(&tid, key)
}

/// `PriorityQueue::get_priority`: the key of a task of the queue, or `None`
/// for a task that is not in it.
#[verifier::external_body]
pub(crate) fn queue_get(q: &PriorityQueue<usize, i64, RandomState>, tid: usize) -> (key: Option<i64>)
    ensures
        key == (if queue_contents(*q).contains_key(tid) {
            Some(queue_contents(*q)[tid])
        } else {
            None
        }),
{
    q.get_priority(&tid).copied()
}

/// `PriorityQueue::peek`: a task with the greatest key, with that key, or
/// `None` where the queue holds nothing. Which of several tasks with the
/// greatest key it is, is not said.
#[verifier::external_body]
pub(crate) fn queue_peek(q: &PriorityQueue<usize, i64, RandomState>) -> (top: Option<(usize, i64)>)
    ensures
        top matches Some(entry) ==> is_greatest(queue_contents(*q), entry),
        top is None ==> queue_contents(*q).dom() =~= Set::empty(),
{
    q.peek().map(|(tid, key)| (*tid, *key))
}

} // verus!
