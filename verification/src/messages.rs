//! The messages that flow between units: published events, scheduling
//! signals, and the synchronous history query.

use vstd::prelude::*;

verus! {

/// Message to publish an output line.
pub struct PublishTick(pub String);

impl Clone for PublishTick {
    fn clone(&self) -> (res: Self)
        ensures
            res == *self,
    {
        PublishTick(self.0.clone())
    }
}

/// Message to publish an error.
pub struct PublishError(pub String);

impl Clone for PublishError {
    fn clone(&self) -> (res: Self)
        ensures
            res == *self,
    {
        PublishError(self.0.clone())
    }
}

/// Message on a clock tick: one poll cycle is due.
#[derive(Clone, Copy)]
pub struct Tick {}

/// Message to request a resource flush.
#[derive(Clone, Copy)]
pub struct Flush {}

/// Message to request termination.
#[derive(Clone, Copy)]
pub struct Exit {}

/// Message to get the last `n` cached lines.
#[derive(Clone, Copy)]
pub struct LastN(pub usize);

} // verus!
