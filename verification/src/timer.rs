//! The timers that end a wait.

use tokio::task::AbortHandle;
use vstd::prelude::*;

verus! {

/// A handle on a running timer.
#[verifier::external_type_specification]
#[verifier::external_body]
pub struct ExAbortHandle(AbortHandle);

/// The timers that were told to stop, in the order in which they were told.
pub struct Stopped {
    timers: Ghost<Seq<AbortHandle>>,
}

impl View for Stopped {
    type V = Seq<AbortHandle>;

    closed spec fn view(&self) -> Seq<AbortHandle> {
        self.timers@
    }
}

impl Stopped {
    /// No timer was told to stop yet.
    pub fn new() -> (result: Stopped)
        ensures
            result@ == Seq::<AbortHandle>::empty(),
    {
        Stopped { timers: Ghost(Seq::empty()) }
    }

    /// Tells a timer to stop.
    ///
    /// Calls `tokio::task::AbortHandle::abort`, which returns nothing; the call is noted here, and
    /// only here. That the runtime then cancels the task behind the handle, unless it has ended
    /// before, is left unsaid.
    #[verifier::external_body]
    pub(crate) fn stop(&mut self, timer: &AbortHandle)
        ensures
            final(self)@ == old(self)@.push(*timer),
    {
        timer.abort();
    }
}

} // verus!
