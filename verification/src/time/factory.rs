//! An interval that makes a new message on every tick.

use vstd::prelude::*;

use super::Nanos;
use crate::addr::Addr;
use crate::envelope::{Envelope, MessageKind};
use crate::message::AnyMessage;
use crate::poll::Poll;
use crate::tracing::TraceId;

verus! {

/// Emits messages periodically, starting from some moment.
pub struct Interval<F> {
    pub message_factory: F,
    /// When the timer fires.
    pub deadline: Nanos,
    pub start_at: Option<Nanos>,
    pub period: Nanos,
}

impl<F> Interval<F> {
    /// The current period has a beginning.
    pub open spec fn wf(&self) -> bool {
        self.start_at is None ==> self.deadline >= self.period
    }

    pub fn new(f: F, now: Nanos) -> (this: Interval<F>)
        ensures
            this.wf(),
            this == (Interval { message_factory: f, deadline: now, start_at: None, period: 0 }),
    {
        Interval { message_factory: f, deadline: now, start_at: None, period: 0 }
    }

    /// The first message is emitted after the specified time.
    pub fn after(self, now: Nanos, after: Nanos) -> (this: Interval<F>)
        requires
            now + after <= u128::MAX,
        ensures
            this.wf(),
            this == (Interval {
                deadline: (now + after) as u128,
                start_at: Some((now + after) as u128),
                ..self
            }),
    {
        let when: Nanos = now + after;
        Interval {
            message_factory: self.message_factory,
            deadline: when,
            start_at: Some(when),
            period: self.period,
        }
    }

    /// Changes the period, the origin of the current one stays.
    pub fn set_period(&mut self, new_period: Nanos)
        requires
            old(self).wf(),
            new_period > 0,
            old(self).deadline - old(self).period + new_period <= u128::MAX,
        ensures
            final(self).wf(),
            *final(self) == (Interval {
                period: new_period,
                deadline: if old(self).start_at is None {
                    (old(self).deadline - old(self).period + new_period) as u128
                } else {
                    old(self).deadline
                },
                ..*old(self)
            }),
    {
        if new_period == self.period {
            return ;
        }

        let old_period: Nanos = self.period;
        self.period = new_period;

        if self.start_at.is_none() {
            self.deadline = self.deadline - old_period + new_period;
        }
    }

    /// Starts the period from now.
    pub fn reset(&mut self, now: Nanos)
        requires
            now + old(self).period <= u128::MAX,
        ensures
            final(self).wf(),
            *final(self) == (Interval {
                deadline: (now + old(self).period) as u128,
                start_at: None,
                ..*old(self)
            }),
    {
        self.deadline = now + self.period;
        self.start_at = None;
    }
}

impl<F: Fn() -> AnyMessage> Interval<F> {
    /// Whether an envelope carries a message of the factory from nobody.
    pub open spec fn is_made(&self, envelope: Envelope, trace_id: TraceId) -> bool {
        &&& envelope.trace_id == trace_id
        &&& envelope.kind == (MessageKind::Regular { sender: Addr::spec_null() })
        &&& call_ensures(self.message_factory, (), envelope.message)
    }

    /// Emits a message if the timer fires and schedules the next tick.
    pub fn poll_recv(&mut self, is_fired: bool, trace_id: TraceId) -> (res: Poll<Option<Envelope>>)
        requires
            old(self).wf(),
            old(self).deadline + old(self).period <= u128::MAX,
            call_requires(old(self).message_factory, ()),
        ensures
            final(self).wf(),
            if is_fired && (old(self).period != 0 || old(self).start_at is Some) {
                &&& res matches Poll::Ready(Some(envelope)) && old(self).is_made(envelope, trace_id)
                &&& *final(self) == (Interval {
                    deadline: (old(self).deadline + old(self).period) as u128,
                    start_at: None,
                    ..*old(self)
                })
            } else {
                &&& res is Pending
                &&& *final(self) == *old(self)
            },
    {
        if is_fired {
            // It hasn't been configured, so just ignore it.
            if self.period == 0 && self.start_at.is_none() {
                return Poll::Pending;
            }

            self.start_at = None;

            // Now reset the underlying timer.
            self.deadline = self.deadline + self.period;

            // Emit a message.
            let message = (self.message_factory)();
            let kind = MessageKind::Regular { sender: Addr::null() };
            return Poll::Ready(Some(Envelope::new(trace_id, kind, message)));
        }

        Poll::Pending
    }
}

// === Laws ===

/// When messages are emitted: the first one after the given time, others periodically.
/// An interval that isn't configured emits nothing.
pub proof fn factory_is_called_periodically<F: Fn() -> AnyMessage>(
    f: F,
    now: Nanos,
    after: Nanos,
    period: Nanos,
    fresh: Interval<F>,
    configured: Interval<F>,
    periodic: &mut Interval<F>,
    first: &mut Interval<F>,
    second: &mut Interval<F>,
    unconfigured: &mut Interval<F>,
    trace_id: TraceId,
    a: Poll<Option<Envelope>>,
    b: Poll<Option<Envelope>>,
    c: Poll<Option<Envelope>>,
)
    requires
        period > 0,
        now + after + 2 * period <= u128::MAX,
        call_ensures(Interval::<F>::new, (f, now), fresh),
        *old(unconfigured) == fresh,
        call_ensures(Interval::<F>::poll_recv, (unconfigured, true, trace_id), c),
        call_ensures(Interval::<F>::after, (fresh, now, after), configured),
        *old(periodic) == configured,
        call_ensures(Interval::<F>::set_period, (periodic, period), ()),
        *old(first) == *final(periodic),
        call_ensures(Interval::<F>::poll_recv, (first, true, trace_id), a),
        *old(second) == *final(first),
        call_ensures(Interval::<F>::poll_recv, (second, false, trace_id), b),
    ensures
        c is Pending,
        old(first).deadline == now + after,
        final(first).deadline == now + after + period,
        a is Ready && a->Ready_0 is Some,
        a->Ready_0->0.trace_id == trace_id,
        call_ensures(f, (), a->Ready_0->0.message),
        a->Ready_0->0.kind matches MessageKind::Regular { sender } && sender.bits == 0,
        b is Pending && *final(second) == *old(second),
{
}

/// A new period is counted from the beginning of the current one, a reset one from the
/// given moment.
pub proof fn period_is_counted_from_origin<F>(
    interval: &mut Interval<F>,
    reset: &mut Interval<F>,
    period: Nanos,
    now: Nanos,
)
    requires
        old(interval).wf(),
        old(interval).start_at is None,
        old(interval).deadline - old(interval).period + period <= u128::MAX,
        now + period <= u128::MAX,
        call_ensures(Interval::<F>::set_period, (interval, period), ()),
        *old(reset) == *final(interval),
        call_ensures(Interval::<F>::reset, (reset, now), ()),
    ensures
        final(interval).period == period,
        final(interval).deadline - period == old(interval).deadline - old(interval).period,
        final(reset).deadline == now + period,
        final(reset).period == period && final(reset).start_at is None,
        final(reset).message_factory == old(interval).message_factory,
{
}

} // verus!
