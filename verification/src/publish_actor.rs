//! The console sink unit: subscribed to tick events, it hands each received
//! line to the host for writing to standard output. Best-effort and
//! stateless: a write failure never fails the unit.

use crate::bus::EventKind;
use vstd::prelude::*;

verus! {

/// The console sink.
pub struct PublisherActor;

impl PublisherActor {
    /// The kinds this unit subscribes to on start.
    pub fn subscriptions(&self) -> (r: Vec<EventKind>)
        ensures
            r@ == seq![EventKind::Tick],
    {
        let mut r: Vec<EventKind> = Vec::new();
        r.push(EventKind::Tick);
        proof {
            assert(r@ =~= seq![EventKind::Tick]);
        }
        r
    }
}

} // verus!
