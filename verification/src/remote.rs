//! Waiting for remote handles.

use vstd::prelude::*;

verus! {

/// Counts those who wait until a remote handle is ready.
#[derive(Debug, Clone, Copy, PartialEq, Eq, Structural, Default)]
pub struct SendNotify {
    pub waiters: usize,
}

impl SendNotify {
    /// Somebody starts waiting.
    pub fn notified(&mut self)
        ensures
            final(self).waiters == (if old(self).waiters == usize::MAX {
                0
            } else {
                old(self).waiters + 1
            }),
    {
        self.waiters = self.waiters.wrapping_add(1);
    }

    /// Wakes everyone up, returns how many ones.
    pub fn notify(&mut self) -> (waiters: usize)
        ensures
            waiters == old(self).waiters,
            final(self).waiters == 0,
    {
        let waiters: usize = self.waiters;
        self.waiters = 0;
        waiters
    }
}

// === Laws ===

/// Everyone who waits is woken up, exactly once.
pub proof fn all_waiters_are_woken(
    notify: &mut SendNotify,
    woken: &mut SendNotify,
    again: &mut SendNotify,
    first: usize,
    second: usize,
)
    requires
        old(notify).waiters < usize::MAX,
        call_ensures(SendNotify::notified, (notify,), ()),
        *old(woken) == *final(notify),
        call_ensures(SendNotify::notify, (woken,), first),
        *old(again) == *final(woken),
        call_ensures(SendNotify::notify, (again,), second),
    ensures
        first == old(notify).waiters + 1,
        second == 0,
{
}

} // verus!
