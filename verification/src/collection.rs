//! What the core asks of the host runtime.

use vstd::prelude::*;

verus! {

/// The requests that the core has made of the host runtime and that the host
/// has not taken up yet. The one who drives the collector hands them on.
pub struct VMCollection {
    /// Finalization work is pending: the host is to run its finalizer thread.
    pub finalization_scheduled: bool,
}

impl VMCollection {
    /// A host interface with no request pending.
    pub fn new() -> (host: VMCollection)
        ensures
            !host.finalization_scheduled,
    {
        VMCollection { finalization_scheduled: false }
    }

    /// Signals the host that objects are ready to be finalized.
    pub fn schedule_finalization(&mut self)
        ensures
            final(self).finalization_scheduled,
    {
        self.finalization_scheduled = true;
    }

    /// Takes the pending finalization request, if there is one, so that the
    /// host is notified once for it.
    pub fn take_scheduled_finalization(&mut self) -> (pending: bool)
        ensures
            pending == old(self).finalization_scheduled,
            !final(self).finalization_scheduled,
    {
        let pending = self.finalization_scheduled;
        self.finalization_scheduled = false;
        pending
    }
}

} // verus!
