use vstd::prelude::*;

use super::{Nanos, FAR};
use crate::envelope::Envelope;
use crate::message::AnyMessage;
use crate::poll::Poll;
use crate::source::{emit, is_emitted};
use crate::tracing::TraceId;

verus! {

pub const NEVER: u128 = 0;

/// A source that emits messages periodically.
/// Clones the message on every tick.
///
/// # Tracing
///
/// Every message starts a new trace, thus a new trace id is generated and
/// assigned to the current scope.
#[derive(Debug)]
pub struct Interval {
    pub message: AnyMessage,
    pub period: Nanos,
    pub is_delayed: bool,
    /// When the timer fires.
    pub deadline: Nanos,
}

impl Interval {
    /// The current period has a beginning.
    pub open spec fn wf(&self) -> bool {
        self.period != NEVER && !self.is_delayed ==> self.deadline >= self.period
    }

    /// Creates an interval that isn't started.
    pub fn new(message: AnyMessage, now: Nanos) -> (this: Interval)
        requires
            now + FAR <= u128::MAX,
        ensures
            this.wf(),
            this.message == message,
            this.period == NEVER,
            !this.is_delayed,
            this.deadline == now + FAR,
    {
        Interval { message, period: NEVER, is_delayed: false, deadline: super::far_future(now) }
    }

    /// Replaces a stored message with the provided one.
    pub fn set_message(&mut self, message: AnyMessage)
        ensures
            *final(self) == (Interval { message, ..*old(self) }),
    {
        self.message = message;
    }

    /// Configures the period of ticks. Intended to be called on
    /// `ConfigUpdated`.
    ///
    /// Does nothing if the timer is not started or the period hasn't been
    /// changed.
    ///
    /// Unlike rescheduling (`start_*` methods), it only adjusts the current
    /// period and doesn't change the time origin. For instance, if we have
    /// a configured interval with period = 5s and try to call one of these
    /// methods, the difference looks something like this:
    ///
    /// ```text
    /// set_period(10s): | 5s | 5s | 5s |  # 10s  |   10s   |
    /// start(10s):      | 5s | 5s | 5s |  #   10s   |   10s   |
    ///                                    #
    ///                               called here
    /// ```
    ///
    /// Returns whether the timer is rescheduled, then the source must be woken
    /// up.
    pub fn set_period(&mut self, period: Nanos) -> (is_rescheduled: bool)
        requires
            old(self).wf(),
            period != NEVER,
            old(self).deadline - old(self).period + period <= u128::MAX,
        ensures
            final(self).wf(),
            is_rescheduled == (old(self).period != NEVER && period != old(self).period && !old(self).is_delayed),
            *final(self) == (Interval {
                period: if old(self).period == NEVER {
                    NEVER
                } else {
                    period
                },
                deadline: if is_rescheduled {
                    (old(self).deadline - old(self).period + period) as u128
                } else {
                    old(self).deadline
                },
                ..*old(self)
            }),
    {
        // Do nothing if not started or the period hasn't been changed.
        if self.period == NEVER || period == self.period {
            return false;
        }

        // Reschedule if inside the period.
        if !self.is_delayed {
            self.deadline = self.deadline - self.period + period;
            self.period = period;
            true
        } else {
            self.period = period;
            false
        }
    }

    /// Schedules the timer to start emitting ticks every `period`.
    /// The first tick will be emitted also after `period`.
    ///
    /// Reschedules the timer if it's already started.
    pub fn start(&mut self, now: Nanos, period: Nanos)
        requires
            period != NEVER,
            now + period <= u128::MAX,
        ensures
            final(self).wf(),
            *final(self) == (Interval {
                period,
                is_delayed: false,
                deadline: (now + period) as u128,
                ..*old(self)
            }),
    {
        self.schedule(None, now, period);
    }

    /// Schedules the timer to start emitting ticks every `period`.
    /// The first tick will be emitted after `delay`.
    ///
    /// Reschedules the timer if it's already started.
    pub fn start_after(&mut self, now: Nanos, delay: Nanos, period: Nanos)
        requires
            period != NEVER,
            now + delay <= u128::MAX,
        ensures
            final(self).wf(),
            *final(self) == (Interval {
                period,
                is_delayed: true,
                deadline: (now + delay) as u128,
                ..*old(self)
            }),
    {
        self.start_at(now + delay, period);
    }

    /// Schedules the timer to start emitting ticks every `period`.
    /// The first tick will be emitted at `when`.
    ///
    /// Reschedules the timer if it's already started.
    pub fn start_at(&mut self, when: Nanos, period: Nanos)
        requires
            period != NEVER,
        ensures
            final(self).wf(),
            *final(self) == (Interval { period, is_delayed: true, deadline: when, ..*old(self) }),
    {
        self.schedule(Some(when), 0, period);
    }

    /// Stops any ticks. To resume ticks use one of `start_*` methods.
    ///
    /// Note: it doesn't terminates the source. It means the source is present
    /// in the source map until it's terminated.
    pub fn stop(&mut self, now: Nanos)
        requires
            now + FAR <= u128::MAX,
        ensures
            final(self).wf(),
            *final(self) == (Interval {
                period: NEVER,
                is_delayed: true,
                deadline: (now + FAR) as u128,
                ..*old(self)
            }),
    {
        self.schedule(Some(super::far_future(now)), now, NEVER);
    }

    fn schedule(&mut self, when: Option<Nanos>, now: Nanos, period: Nanos)
        requires
            (when is None) ==> now + period <= u128::MAX,
        ensures
            final(self).wf(),
            *final(self) == (Interval {
                period,
                is_delayed: when is Some,
                deadline: match when {
                    Some(when) => when,
                    None => (now + period) as u128,
                },
                ..*old(self)
            }),
    {
        self.is_delayed = when.is_some();
        self.period = period;
        self.deadline = match when {
            Some(when) => when,
            None => now + period,
        };
    }

    /// Emits a message if the timer fires and schedules the next tick.
    pub fn poll_recv(&mut self, is_fired: bool, new_trace_id: TraceId) -> (res: Poll<
        Option<Envelope>,
    >)
        requires
            old(self).wf(),
            old(self).deadline + old(self).period <= u128::MAX,
        ensures
            final(self).wf(),
            if old(self).period != NEVER && is_fired {
                &&& res matches Poll::Ready(Some(envelope)) && is_emitted(
                    envelope,
                    old(self).message,
                    new_trace_id,
                )
                &&& *final(self) == (Interval {
                    is_delayed: false,
                    deadline: (old(self).deadline + old(self).period) as u128,
                    ..*old(self)
                })
            } else {
                &&& res is Pending
                &&& *final(self) == *old(self)
            },
    {
        // Do nothing if stopped or not configured.
        if self.period == NEVER {
            return Poll::Pending;
        }

        // Wait for a tick from implementation.
        if !is_fired {
            return Poll::Pending;
        }

        // After first tick, the interval isn't delayed even if it was.
        self.is_delayed = false;

        // Reset the underlying timer.
        self.deadline = self.deadline + self.period;

        // Emit the message.
        Poll::Ready(Some(emit(&self.message, new_trace_id)))
    }
}

// === Laws ===

/// Adjusting of the period keeps the origin of the current period, and
/// adjusting back restores the timer.
pub proof fn set_period_keeps_origin(deadline: Nanos, period: Nanos, new_period: Nanos)
    requires
        deadline >= period,
    ensures
        ({
            let new_deadline = deadline - period + new_period;
            &&& new_deadline - new_period == deadline - period
            &&& new_deadline - new_period + period == deadline
        }),
{
}

/// The first message is emitted after the period, or after the given delay, or at the
/// given moment, others periodically. Until the interval is started, nothing is emitted.
pub proof fn messages_are_emitted_periodically(
    message: AnyMessage,
    created: Nanos,
    now: Nanos,
    delay: Nanos,
    period: Nanos,
    idle: &mut Interval,
    a: &mut Interval,
    b: &mut Interval,
    c: &mut Interval,
    ticking: &mut Interval,
    trace_id: TraceId,
    is_fired: bool,
    x: Poll<Option<Envelope>>,
    y: Poll<Option<Envelope>>,
)
    requires
        period > 0,
        created + FAR <= u128::MAX,
        now + delay + 2 * period <= u128::MAX,
        call_ensures(Interval::new, (message, created), *old(idle)),
        call_ensures(Interval::poll_recv, (idle, is_fired, trace_id), x),
        *old(a) == *old(idle) && *old(b) == *old(idle) && *old(c) == *old(idle),
        call_ensures(Interval::start, (a, now, period), ()),
        call_ensures(Interval::start_after, (b, now, delay, period), ()),
        call_ensures(Interval::start_at, (c, delay, period), ()),
        *old(ticking) == *final(a) || *old(ticking) == *final(b) || *old(ticking) == *final(c),
        call_ensures(Interval::poll_recv, (ticking, is_fired, trace_id), y),
    ensures
        x is Pending,
        final(a).deadline == now + period,
        final(b).deadline == now + delay,
        final(c).deadline == delay,
        !is_fired ==> y is Pending && *final(ticking) == *old(ticking),
        is_fired ==> {
            &&& y is Ready && y->Ready_0 is Some
            &&& y->Ready_0->0.trace_id == trace_id
            &&& y->Ready_0->0.message.vtable == message.vtable
            &&& y->Ready_0->0.message.data@ == message.data@
            &&& final(ticking).deadline == old(ticking).deadline + period
            &&& final(ticking).period == period && !final(ticking).is_delayed
        },
{
}

/// A new period is counted from the beginning of the current one. It does nothing if
/// the interval isn't started, and doesn't move the first message if it's delayed.
pub proof fn period_is_adjusted(interval: &mut Interval, period: Nanos, is_rescheduled: bool)
    requires
        old(interval).wf(),
        period > 0,
        old(interval).deadline - old(interval).period + period <= u128::MAX,
        call_ensures(Interval::set_period, (interval, period), is_rescheduled),
    ensures
        old(interval).period == 0 ==> *final(interval) == *old(interval) && !is_rescheduled,
        old(interval).period != 0 ==> final(interval).period == period,
        old(interval).period != 0 && old(interval).is_delayed ==> final(interval).deadline == old(interval).deadline && !is_rescheduled,
        old(interval).period != 0 && !old(interval).is_delayed ==> final(interval).deadline
            - period == old(interval).deadline - old(interval).period,
        is_rescheduled <==> final(interval).deadline != old(interval).deadline,
        final(interval).message == old(interval).message && final(interval).is_delayed == old(interval).is_delayed,
{
}

/// A stopped interval emits nothing until it's started again. The message can be replaced
/// at any time.
pub proof fn stopped_interval_emits_nothing(
    interval: &mut Interval,
    polled: &mut Interval,
    changed: &mut Interval,
    now: Nanos,
    message: AnyMessage,
    is_fired: bool,
    trace_id: TraceId,
    res: Poll<Option<Envelope>>,
)
    requires
        now + FAR <= u128::MAX,
        call_ensures(Interval::stop, (interval, now), ()),
        *old(polled) == *final(interval),
        call_ensures(Interval::poll_recv, (polled, is_fired, trace_id), res),
        call_ensures(Interval::set_message, (changed, message), ()),
    ensures
        res is Pending,
        final(interval).deadline == now + FAR,
        final(interval).message == old(interval).message,
        *final(changed) == (Interval { message, ..*old(changed) }),
{
}

/// A new interval waits for 30 years, it doesn't emit messages until it's started.
pub proof fn new_interval_waits(message: AnyMessage, now: Nanos, interval: Interval)
    requires
        call_ensures(Interval::new, (message, now), interval),
    ensures
        interval.message == message && interval.period == 0 && !interval.is_delayed,
        interval.deadline - now == 30 * 365 * 24 * 60 * 60 * 1_000_000_000,
{
}

} // verus!
