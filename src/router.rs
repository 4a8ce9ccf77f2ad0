use vstd::prelude::*;
use crate::coord::{in_canonical_range, is_local, transform, transform_spec, Side, TOTAL_COLUMNS};
use crate::frame::{encode, encode_spec, Transition};
use crate::queue::{EventQueue, QUEUE_CAPACITY};

verus! {

/// Why a transition from the link was not routed.
#[derive(Clone, Copy, Debug, PartialEq, Eq, Structural)]
pub enum RouteError {
    /// The secondary half cannot mirror a column past the canonical range.
    OutOfRange,
}

/// Whether the half on `side` can make `t`'s coordinate canonical: every
/// coordinate on the primary half, columns of the canonical range on the
/// secondary half.
pub open spec fn routable(side: Side, t: Transition) -> bool {
    side == Side::Primary || in_canonical_range(t.coord)
}

/// What a router holds: its side and the canonical transitions waiting for
/// the layout resolver, oldest first.
pub struct RouterModel {
    pub side: Side,
    pub pending: Seq<Transition>,
}

/// The transition with its coordinate made canonical for `side`.
pub open spec fn canonical(side: Side, t: Transition) -> Transition {
    Transition { coord: transform_spec(side, t.coord), pressed: t.pressed }
}

/// The single funnel between both event sources and the layout resolver.
/// Transitions reach the resolver in the order in which they were routed.
pub struct Router {
    side: Side,
    pending: EventQueue,
}

impl View for Router {
    type V = RouterModel;

    closed spec fn view(&self) -> RouterModel {
        RouterModel { side: self.side, pending: self.pending@ }
    }
}

impl Router {
    /// A router for the half on `side`, with nothing pending.
    pub fn new(side: Side) -> (r: Router)
        ensures
            r@.side == side,
            r@.pending == Seq::<Transition>::empty(),
    {
        Router { side, pending: EventQueue::new() }
    }

    /// The side chosen at start-up.
    pub fn side(&self) -> (r: Side)
        ensures
            r == self@.side,
    {
        self.side
    }

    /// How many transitions wait for the resolver.
    pub fn pending_len(&self) -> (r: usize)
        ensures
            r == self@.pending.len(),
            r <= QUEUE_CAPACITY,
    {
        self.pending.len()
    }

    /// Whether the resolver's queue can take no more transitions. Losing a
    /// transition would corrupt the keyboard state, so a caller that finds
    /// the queue full must stop rather than route.
    pub fn is_full(&self) -> (r: bool)
        ensures
            r == (self@.pending.len() >= QUEUE_CAPACITY),
    {
        self.pending.is_full()
    }

    /// A transition of the local matrix: its canonical form goes to the
    /// resolver, and the frame of the local, untransformed transition is
    /// returned for the link, since the other half applies its own transform.
    pub fn on_local_transition(&mut self, t: Transition) -> (r: [u8; 4])
        requires
            is_local(t.coord),
            old(self)@.pending.len() < QUEUE_CAPACITY,
        ensures
            final(self)@.side == old(self)@.side,
            r@ == encode_spec(t),
            final(self)@.pending == old(self)@.pending.push(canonical(old(self)@.side, t)),
    {
        let c = Transition { coord: transform(self.side, t.coord), pressed: t.pressed };
        let _ = self.pending.push(c);
        encode(t)
    }

    /// A transition decoded from the link, in the sender's local
    /// coordinates: it is made canonical with this half's transform and goes
    /// to the resolver. Only a column that the secondary half cannot mirror
    /// is refused.
    pub fn on_remote_transition(&mut self, t: Transition) -> (r: Result<(), RouteError>)
        requires
            old(self)@.pending.len() < QUEUE_CAPACITY,
        ensures
            final(self)@.side == old(self)@.side,
            routable(old(self)@.side, t) ==> r == Ok::<(), RouteError>(()) && final(self)@.pending
                == old(self)@.pending.push(canonical(old(self)@.side, t)),
            !routable(old(self)@.side, t) ==> r == Err::<(), RouteError>(RouteError::OutOfRange)
                && final(self)@.pending == old(self)@.pending,
    {
        if self.side == Side::Secondary && t.coord.col >= TOTAL_COLUMNS {
            return Err(RouteError::OutOfRange);
        }
        let c = Transition { coord: transform(self.side, t.coord), pressed: t.pressed };
        let _ = self.pending.push(c);
        Ok(())
    }

    /// Hands the resolver the transition that has waited longest, if any.
    pub fn next_for_resolver(&mut self) -> (r: Option<Transition>)
        ensures
            final(self)@.side == old(self)@.side,
            old(self)@.pending.len() == 0 ==> r is None && final(self)@.pending
                == old(self)@.pending,
            old(self)@.pending.len() > 0 ==> r == Some(old(self)@.pending[0])
                && final(self)@.pending == old(self)@.pending.drop_first(),
    {
        self.pending.pop()
    }
}

} // verus!
