use vstd::prelude::*;

use crate::time::Nanos;

verus! {

pub const BACKOFF_STEP: u128 = 5_000_000_000;

pub const MAX_BACKOFF: u128 = 30_000_000_000;

/// Delays restarts for longer and longer.
#[derive(Debug, Clone, Copy, PartialEq, Eq, Structural)]
pub struct Backoff {
    pub next_backoff: Nanos,
    pub start_time: Nanos,
}

impl Backoff {
    pub open spec fn wf(self) -> bool {
        self.next_backoff <= MAX_BACKOFF
    }

    /// A new backoff for an actor that is started right now.
    pub fn new(now: Nanos) -> (this: Backoff)
        ensures
            this.wf(),
            this.next_backoff == BACKOFF_STEP,
            this.start_time == now,
    {
        Backoff { next_backoff: BACKOFF_STEP, start_time: now }
    }

    /// Must be called each time the actor is restarted.
    pub fn start(&mut self, now: Nanos)
        ensures
            *final(self) == (Backoff { start_time: now, ..*old(self) }),
    {
        self.start_time = now;
    }

    /// The delay before the next restart.
    pub open spec fn delay(self, now: Nanos) -> Nanos {
        if now - self.start_time >= BACKOFF_STEP {
            0
        } else {
            self.next_backoff
        }
    }

    /// Returns the delay before the next restart.
    pub fn next(&mut self, now: Nanos) -> (delay: Nanos)
        requires
            old(self).wf(),
        ensures
            final(self).wf(),
            delay == old(self).delay(now),
            final(self).start_time == old(self).start_time,
            final(self).next_backoff == (if delay + BACKOFF_STEP <= MAX_BACKOFF {
                (delay + BACKOFF_STEP) as u128
            } else {
                MAX_BACKOFF
            }),
    {
        // If an actor is alive enough time, reset the backoff.
        if now.saturating_sub(self.start_time) >= BACKOFF_STEP {
            self.next_backoff = 0;
        }

        let backoff: Nanos = self.next_backoff;
        let increased: Nanos = backoff + BACKOFF_STEP;
        self.next_backoff = if increased <= MAX_BACKOFF {
            increased
        } else {
            MAX_BACKOFF
        };
        backoff
    }
}

// === Laws ===

/// Delays of an actor that fails again and again grow by the step up to the
/// maximum. An actor that has been alive for the step is restarted at once, and
/// its delays start from the beginning.
pub proof fn delays_grow_linearly(backoff: &mut Backoff, now: Nanos, delay: Nanos)
    requires
        old(backoff).wf(),
        now >= old(backoff).start_time,
        call_ensures(Backoff::next, (backoff, now), delay),
    ensures
        final(backoff).start_time == old(backoff).start_time,
        now - old(backoff).start_time >= 5_000_000_000 ==> delay == 0
            && final(backoff).next_backoff == 5_000_000_000,
        now - old(backoff).start_time < 5_000_000_000 ==> {
            &&& delay == old(backoff).next_backoff
            &&& delay <= 25_000_000_000 ==> final(backoff).next_backoff - delay == 5_000_000_000
            &&& delay > 25_000_000_000 ==> final(backoff).next_backoff == 30_000_000_000
        },
{
}

/// The first delay is one step.
pub proof fn first_delay_is_step(created: Nanos, backoff: Backoff)
    requires
        call_ensures(Backoff::new, (created,), backoff),
    ensures
        backoff.next_backoff == 5_000_000_000,
        backoff.start_time == created,
{
}

/// A restart moves the beginning, the next delay stays.
pub proof fn restart_keeps_next_delay(backoff: &mut Backoff, now: Nanos)
    requires
        call_ensures(Backoff::start, (backoff, now), ()),
    ensures
        final(backoff).start_time == now && final(backoff).next_backoff == old(backoff).next_backoff,
{
}

} // verus!
