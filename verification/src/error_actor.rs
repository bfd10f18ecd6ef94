//! The error sink unit: subscribed to error events, it renders each one as a
//! prefixed line for the host to write to the error stream. Best-effort and
//! stateless: a write failure never fails the unit.

use crate::bus::EventKind;
use crate::messages::PublishError;
use vstd::prelude::*;

verus! {

/// The error sink, carrying the prefix put before every reported message.
pub struct ErrorActor(pub String);

impl ErrorActor {
    /// The kinds this unit subscribes to on start.
    pub fn subscriptions(&self) -> (r: Vec<EventKind>)
        ensures
            r@ == seq![EventKind::Error],
    {
        let mut r: Vec<EventKind> = Vec::new();
        r.push(EventKind::Error);
        proof {
            assert(r@ =~= seq![EventKind::Error]);
        }
        r
    }

    /// The line written for one received error message: the prefix, a
    /// separator, and the message.
    pub fn format_line(&self, msg: &PublishError) -> (r: String)
        ensures
            r@ == self.0@ + "::"@ + msg.0@,
    {
        proof {
            reveal_strlit("::");
        }
        let mut r = self.0.clone();
        r.append("::");
        r.append(msg.0.as_str());
        r
    }
}

} // verus!
