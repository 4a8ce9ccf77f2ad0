//! Coordination core of a split keyboard controller: coordinate mirroring,
//! the inter-half link protocol, event routing and the HID report cycle.

pub mod coord;
pub mod frame;
pub mod receiver;
pub mod queue;
pub mod router;
pub mod emitter;
