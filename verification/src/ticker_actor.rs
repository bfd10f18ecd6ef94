//! The per-symbol poller unit: on each clock tick it has one fetch-and-
//! format cycle run on its behalf, publishes the outcome as a tick or error
//! event, and reschedules itself at the fixed interval regardless of the
//! outcome.

use crate::bus::BusEvent;
use crate::messages::{PublishError, PublishTick};
use vstd::prelude::*;

verus! {

/// Seconds between poll cycles; the fixed interval is also the sole retry
/// mechanism after a failure.
pub const POLL_INTERVAL_SECS: u64 = 30;

/// Delay before a freshly started poller's first cycle.
pub const FIRST_POLL_DELAY_SECS: u64 = 0;

/// Milliseconds of stagger between successive pollers at startup, to avoid
/// a burst of simultaneous first requests.
pub const STARTUP_STAGGER_MS: u64 = 17;

/// One poller: the symbol it tracks and the period it fetches.
pub struct TickerActor {
    pub ticker: String,
    pub quotes_from: i64,
    pub quotes_to: i64,
}

/// The diagnostic line for a failed cycle: the symbol, a separator, and the
/// rendered cause.
pub open spec fn spec_error_line(symbol: Seq<char>, cause: Seq<char>) -> Seq<char> {
    symbol + "|"@ + cause
}

impl TickerActor {
    /// Decide what one finished poll cycle publishes and when the next one
    /// runs: a tick event carrying the line on success, an error event
    /// tagged with the symbol on failure, and in either case the next cycle
    /// after the fixed interval.
    pub fn handle_tick(&self, outcome: Result<String, String>) -> (r: (BusEvent, u64))
        ensures
            r.1 == POLL_INTERVAL_SECS,
            outcome matches Ok(line) ==> (r.0 matches BusEvent::Tick(t) && t.0@ == line@),
            outcome matches Err(cause) ==> (r.0 matches BusEvent::Error(e) && e.0@
                == spec_error_line(self.ticker@, cause@)),
    {
        proof {
            reveal_strlit("|");
        }
        match outcome {
            Ok(line) => (BusEvent::Tick(PublishTick(line)), POLL_INTERVAL_SECS),
            Err(cause) => {
                let mut m = self.ticker.clone();
                m.append("|");
                m.append(cause.as_str());
                (BusEvent::Error(PublishError(m)), POLL_INTERVAL_SECS)
            },
        }
    }
}

} // verus!
