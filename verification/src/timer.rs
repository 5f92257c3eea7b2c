//! A naive timer: what is to be woken, by deadline.

use std::collections::BTreeMap;
use vstd::prelude::*;

verus! {

/// `BTreeMap::first_key_value`, the key of it: the least deadline of the
/// map, or `None` for an empty map.
#[verifier::external_body]
fn first_deadline<W>(events: &BTreeMap<u64, W>) -> (first: Option<u64>)
    ensures
        first matches Some(deadline) ==> events@.contains_key(deadline) && forall|other: u64|
            events@.contains_key(other) ==> deadline <= other,
        first is None ==> events@.dom() =~= Set::empty(),
{
    events.first_key_value().map(|(deadline, _)| *deadline)
}

/// A timer: for each deadline, in nanoseconds, what is woken when it has
/// passed.
pub struct Timer<W> {
    events: BTreeMap<u64, W>,
}

impl<W> View for Timer<W> {
    type V = Map<u64, W>;

    closed spec fn view(&self) -> Map<u64, W> {
        self.events@
    }
}

/// The first deadline from `deadline` on that `events` does not hold.
pub open spec fn free_slot<W>(events: Map<u64, W>, deadline: u64, slot: u64) -> bool {
    &&& deadline <= slot
    &&& !events.contains_key(slot)
    &&& forall|taken: u64| deadline <= taken < slot ==> events.contains_key(taken)
}

/// Whether `expired` holds, in the order of their deadlines, the events of
/// `events` that are due at `now`.
pub open spec fn is_due_list<W>(events: Map<u64, W>, now: u64, expired: Seq<(u64, W)>) -> bool {
    &&& forall|i: int|
        0 <= i < expired.len() ==> {
            &&& (#[trigger] expired[i]).0 <= now
            &&& events.contains_key(expired[i].0)
            &&& events[expired[i].0] == expired[i].1
        }
    &&& forall|i: int, j: int|
        0 <= i < j < expired.len() ==> (#[trigger] expired[i]).0 < (#[trigger] expired[j]).0
    &&& forall|deadline: u64|
        events.contains_key(deadline) && deadline <= now ==> exists|i: int|
            0 <= i < expired.len() && (#[trigger] expired[i]).0 == deadline
}

impl<W> Timer<W> {
    /// A timer without events.
    pub fn new() -> (timer: Timer<W>)
        ensures
            timer@ == Map::<u64, W>::empty(),
    {
        Timer { events: BTreeMap::new() }
    }

    /// The number of events.
    pub fn len(&self) -> (len: usize)
        ensures
            len == self@.len(),
    {
        broadcast use vstd::std_specs::btree::group_btree_axioms;

        self.events.len()
    }

    /// Adds an event. Where the deadline is taken, the event gets the first
    /// deadline after it that is free, which is returned.
    pub fn add(&mut self, deadline: u64, waker: W) -> (slot: u64)
        requires
            exists|free: u64| deadline <= free && !old(self)@.contains_key(free),
        ensures
            free_slot(old(self)@, deadline, slot),
            final(self)@ == old(self)@.insert(slot, waker),
    {
        broadcast use vstd::std_specs::btree::group_btree_axioms;

        let ghost free = choose|free: u64| deadline <= free && !old(self)@.contains_key(free);
        let mut slot: u64 = deadline;
        while self.events.contains_key(&slot)
            invariant
                self@ == old(self)@,
                deadline <= slot <= free,
                !self@.contains_key(free),
                forall|taken: u64| deadline <= taken < slot ==> self@.contains_key(taken),
            decreases free - slot,
        {
            slot = slot + 1;
        }
        self.events.insert(slot, waker);
        slot
    }

    /// Takes out the events that are due at `now`, and returns them with
    /// their deadlines, the earliest first, for the caller to wake.
    pub fn expire(&mut self, now: u64) -> (expired: Vec<(u64, W)>)
        ensures
            is_due_list(old(self)@, now, expired@),
            forall|deadline: u64|
                final(self)@.contains_key(deadline) <==> old(self)@.contains_key(deadline)
                    && deadline > now,
            forall|deadline: u64|
                final(self)@.contains_key(deadline) ==> final(self)@[deadline] == old(
                    self,
                )@[deadline],
    {
        broadcast use vstd::std_specs::btree::group_btree_axioms;

        let mut expired: Vec<(u64, W)> = Vec::new();
        let ghost before = self@;
        loop
            invariant
                forall|i: int|
                    0 <= i < expired@.len() ==> {
                        &&& (#[trigger] expired@[i]).0 <= now
                        &&& before.contains_key(expired@[i].0)
                        &&& before[expired@[i].0] == expired@[i].1
                        &&& !self@.contains_key(expired@[i].0)
                    },
                forall|i: int, j: int|
                    0 <= i < j < expired@.len() ==> (#[trigger] expired@[i]).0
                        < (#[trigger] expired@[j]).0,
                forall|i: int, deadline: u64|
                    0 <= i < expired@.len() && #[trigger] self@.contains_key(deadline)
                        ==> (#[trigger] expired@[i]).0 < deadline,
                forall|deadline: u64| #[trigger]
                    self@.contains_key(deadline) ==> before.contains_key(deadline)
                        && self@[deadline] == before[deadline],
                forall|deadline: u64|
                    before.contains_key(deadline) && !self@.contains_key(deadline) ==> exists|
                        i: int,
                    |
                        0 <= i < expired@.len() && (#[trigger] expired@[i]).0 == deadline,
                self@.dom().finite(),
            ensures
                is_due_list(before, now, expired@),
                forall|deadline: u64|
                    self@.contains_key(deadline) <==> before.contains_key(deadline) && deadline
                        > now,
                forall|deadline: u64|
                    self@.contains_key(deadline) ==> self@[deadline] == before[deadline],
            decreases self@.dom().len(),
        {
            let first: u64 = match first_deadline(&self.events) {
                Some(deadline) => deadline,
                None => {
                    break ;
                },
            };
            if first > now {
                break ;
            }
            let ghost held = expired@;
            let ghost events = self@;
            match self.events.remove(&first) {
                Some(waker) => {
                    expired.push((first, waker));
                    proof {
                        assert forall|deadline: u64|
                            before.contains_key(deadline) && !self@.contains_key(
                                deadline,
                            ) implies exists|i: int|
                            0 <= i < expired@.len() && (#[trigger] expired@[i]).0
                                == deadline by {
                            if deadline == first {
                                assert(expired@[held.len() as int].0 == first);
                            } else {
                                assert(!events.contains_key(deadline));
                                let i = choose|i: int|
                                    0 <= i < held.len() && (#[trigger] held[i]).0 == deadline;
                                assert(expired@[i].0 == deadline);
                            }
                        }
                    }
                },
                None => {
                    // The first deadline is a deadline of the map.
                    assert(false);
                },
            }
        }
        expired
    }
}

/// A deadline that a task waits for.
#[derive(Clone, Copy, Debug, PartialEq, Eq, Structural)]
pub struct DelayFuture {
    deadline: u64,
}

impl View for DelayFuture {
    type V = u64;

    closed spec fn view(&self) -> u64 {
        self.deadline
    }
}

impl DelayFuture {
    /// A wait that ends at `deadline`.
    pub fn new(deadline: u64) -> (delay: DelayFuture)
        ensures
            delay@ == deadline,
    {
        DelayFuture { deadline }
    }

    /// When the wait ends.
    pub fn deadline(&self) -> (deadline: u64)
        ensures
            deadline == self@,
    {
        self.deadline
    }

    /// Whether the wait is over at `now`. A task whose wait is not over
    /// puts itself on the timer under its deadline.
    pub fn is_ready(&self, now: u64) -> (ready: bool)
        ensures
            ready == (now >= self@),
    {
        now >= self.deadline
    }
}

} // verus!
