//! The cancellation signal: a single-shot, multi-waiter stop broadcaster.
//!
//! Once signalled the signal is permanently "stopped"; there is no
//! operation that clears it, so every task that observes it — now or later
//! — observes the same irreversible event. The blocking "wait until
//! stopped" lives with the runtime outside the library; here stands the
//! signal's state and its one transition.

use vstd::prelude::*;

verus! {

pub struct StopSignal {
    stopped: bool,
}

impl StopSignal {
    /// Whether shutdown has been requested.
    pub closed spec fn stopped(self) -> bool {
        self.stopped
    }

    /// A fresh, unsignalled stop signal.
    pub fn new() -> (r: Self)
        ensures
            !r.stopped(),
    {
        StopSignal { stopped: false }
    }

    /// Request shutdown. Idempotent: the signal is stopped afterwards
    /// whatever its state was before.
    pub fn signal_stop(&mut self)
        ensures
            final(self).stopped(),
    {
        self.stopped = true;
    }

    /// Observe the signal.
    pub fn is_stopped(&self) -> (r: bool)
        ensures
            r == self.stopped(),
    {
        self.stopped
    }
}

} // verus!
