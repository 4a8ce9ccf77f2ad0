use vstd::prelude::*;
use crate::coord::Coordinate;
use crate::frame::Transition;

verus! {

/// How many transitions may wait for the layout resolver at once: every key
/// of both halves changing within one scheduling period.
pub const QUEUE_CAPACITY: usize = 48;

/// The queue is full: taking one more transition would lose it.
#[derive(Clone, Copy, Debug, PartialEq, Eq, Structural)]
pub struct QueueFull;

/// A bounded first-in first-out queue of transitions waiting for the layout
/// resolver, held in a fixed array.
pub struct EventQueue {
    slots: [Transition; QUEUE_CAPACITY],
    len: usize,
}

impl View for EventQueue {
    type V = Seq<Transition>;

    closed spec fn view(&self) -> Seq<Transition> {
        self.slots@.take(self.len as int)
    }
}

impl EventQueue {
    #[verifier::type_invariant]
    spec fn inv(self) -> bool {
        self.len <= QUEUE_CAPACITY
    }

    /// An empty queue.
    pub fn new() -> (r: EventQueue)
        ensures
            r@ == Seq::<Transition>::empty(),
    {
        let blank = Transition { coord: Coordinate { row: 0, col: 0 }, pressed: false };
        let r = EventQueue { slots: [blank; QUEUE_CAPACITY], len: 0 };
        assert(r@ =~= Seq::<Transition>::empty());
        r
    }

    /// How many transitions are waiting.
    pub fn len(&self) -> (r: usize)
        ensures
            r == self@.len(),
            r <= QUEUE_CAPACITY,
    {
        proof {
            use_type_invariant(self);
        }
        self.len
    }

    /// Whether no transition is waiting.
    pub fn is_empty(&self) -> (r: bool)
        ensures
            r == (self@.len() == 0),
    {
        proof {
            use_type_invariant(self);
        }
        self.len == 0
    }

    /// Whether the queue can take no more transitions.
    pub fn is_full(&self) -> (r: bool)
        ensures
            r == (self@.len() >= QUEUE_CAPACITY),
    {
        proof {
            use_type_invariant(self);
        }
        self.len == QUEUE_CAPACITY
    }

    /// Appends `t` behind every waiting transition; a full queue is left as
    /// it was and reports `QueueFull`.
    pub fn push(&mut self, t: Transition) -> (r: Result<(), QueueFull>)
        ensures
            old(self)@.len() < QUEUE_CAPACITY ==> r is Ok && final(self)@ == old(self)@.push(t),
            old(self)@.len() >= QUEUE_CAPACITY ==> r is Err && final(self)@ == old(self)@,
            final(self)@.len() <= QUEUE_CAPACITY,
    {
        proof {
            use_type_invariant(&*self);
        }
        if self.len == QUEUE_CAPACITY {
            return Err(QueueFull);
        }
        let ghost before = self@;
        self.slots[self.len] = t;
        self.len = self.len + 1;
        assert(self@ =~= before.push(t));
        Ok(())
    }

    /// Takes the transition that has waited longest, if any.
    pub fn pop(&mut self) -> (r: Option<Transition>)
        ensures
            old(self)@.len() == 0 ==> r is None && final(self)@ == old(self)@,
            old(self)@.len() > 0 ==> r == Some(old(self)@[0]) && final(self)@
                == old(self)@.drop_first(),
    {
        proof {
            use_type_invariant(&*self);
        }
        if self.len == 0 {
            return None;
        }
        let ghost before = self@;
        let first = self.slots[0];
        let n = self.len - 1;
        let mut i: usize = 0;
        while i < n
            invariant
                self.len == n + 1,
                n < QUEUE_CAPACITY,
                before.len() == n + 1,
                0 <= i <= n,
                forall|j: int| 0 <= j < i ==> #[trigger] self.slots@[j] == before[j + 1],
                forall|j: int| i <= j <= n ==> #[trigger] self.slots@[j] == before[j],
            decreases n - i,
        {
            self.slots[i] = self.slots[i + 1];
            i = i + 1;
        }
        self.len = n;
        assert(self@ =~= before.drop_first());
        Some(first)
    }
}

} // verus!
