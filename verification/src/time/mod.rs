//! Time and the sources that emit messages as it passes.
//!
//! Moments of time are numbers of nanoseconds since some moment in the past.
//! Sources know when they should be woken up, waiting itself is up to a runtime.

use vstd::prelude::*;

pub mod delay;
pub mod factory;
pub mod interval;
pub mod stopwatch;

pub use self::delay::Delay;
pub use self::interval::Interval;

verus! {

/// A length of time in nanoseconds.
pub type Nanos = u128;

pub const NANOS_PER_SECOND: u128 = 1_000_000_000;

/// Roughly 30 years.
pub const FAR: u128 = 946_080_000_000_000_000;

/// A moment that never comes.
pub fn far_future(now: Nanos) -> (moment: Nanos)
    requires
        now + FAR <= u128::MAX,
    ensures
        moment == now + FAR,
{
    now + FAR
}

// === Laws ===

/// The far future is 30 years later.
pub proof fn far_future_is_30_years_later(now: Nanos, moment: Nanos)
    requires
        call_ensures(far_future, (now,), moment),
    ensures
        moment - now == 30 * 365 * 24 * 60 * 60 * 1_000_000_000,
{
}

} // verus!
