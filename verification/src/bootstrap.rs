use vstd::prelude::*;
use crate::driver::DriverHandle;

verus! {

// The bootstrap protocol: the dispatcher, once started, publishes its
// handle to a single process-wide slot, and any thread may poll that slot
// to attach. Publishing replaces whatever was there — only one dispatcher
// is meant to run, and a stale handle's clients would block forever. The
// host guards the one shared slot with its lock and runs the attach poll
// loop (poll, sleep briefly, poll again) around `ready` and `current`,
// since waiting is the host's affair.

/// The process-wide publication slot for the dispatcher handle.
pub struct HandleSlot {
    handle: Option<DriverHandle>,
}

impl HandleSlot {
    pub closed spec fn stored_handle(&self) -> Option<DriverHandle> {
        self.handle
    }

    pub open spec fn published(&self) -> bool {
        self.stored_handle() is Some
    }

    /// The empty slot every process starts with: nothing published, every
    /// attach attempt must wait.
    pub fn new() -> (r: HandleSlot)
        ensures
            !r.published(),
    {
        HandleSlot { handle: None }
    }

    /// Publish a handle: the slot then holds exactly it, and any earlier
    /// handle is replaced and dropped.
    pub fn try_replace(&mut self, h: DriverHandle)
        ensures
            final(self).stored_handle() == Some(h),
            final(self).published(),
    {
        self.handle = Some(h);
    }

    /// The attach decision: a poll attempt succeeds exactly when a handle
    /// has been published.
    pub fn ready(&self) -> (r: bool)
        ensures
            r == self.published(),
    {
        match &self.handle {
            Some(_) => true,
            None => false,
        }
    }

    /// A handle of the currently published dispatcher, `None` while nothing
    /// is published yet.
    pub fn current(&self) -> (r: Option<DriverHandle>)
        ensures
            r is Some <==> self.published(),
    {
        match &self.handle {
            Some(h) => Some(h.duplicate()),
            None => None,
        }
    }
}

} // verus!
