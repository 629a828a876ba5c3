use vstd::prelude::*;

use super::{Nanos, FAR};
use crate::addr::Addr;
use crate::envelope::{Envelope, MessageKind};
use crate::message::AnyMessage;
use crate::poll::Poll;
use crate::tracing::TraceId;

verus! {

/// A source that emits a message after some specified time.
///
/// # Tracing
///
/// The emitted message continues the current trace.
#[derive(Debug)]
pub struct Delay {
    pub message: Option<AnyMessage>,
    pub trace_id: Option<TraceId>,
    /// When the timer fires.
    pub deadline: Nanos,
}

impl Delay {
    /// Schedules the timer to emit the provided message after `delay`.
    /// `trace_id` is the current one.
    pub fn new(now: Nanos, delay: Nanos, message: AnyMessage, trace_id: TraceId) -> (this: Delay)
        requires
            now + delay <= u128::MAX,
        ensures
            this.message == Some(message),
            this.trace_id == Some(trace_id),
            this.deadline == now + delay,
    {
        Delay::until(now + delay, message, trace_id)
    }

    /// Schedules the timer to emit the provided message at `when`.
    pub fn until(when: Nanos, message: AnyMessage, trace_id: TraceId) -> (this: Delay)
        ensures
            this.message == Some(message),
            this.trace_id == Some(trace_id),
            this.deadline == when,
    {
        Delay { message: Some(message), trace_id: Some(trace_id), deadline: when }
    }

    /// Prevents the timer from waking up.
    pub fn terminate(&mut self, now: Nanos)
        requires
            now + FAR <= u128::MAX,
        ensures
            *final(self) == (Delay { deadline: (now + FAR) as u128, ..*old(self) }),
    {
        self.deadline = super::far_future(now);
    }

    /// Emits the message once the timer fires, only once.
    pub fn poll_recv(&mut self, is_fired: bool, new_trace_id: TraceId) -> (res: Poll<
        Option<Envelope>,
    >)
        ensures
            match old(self).message {
                None => {
                    &&& res == Poll::Ready(None::<Envelope>)
                    &&& *final(self) == *old(self)
                },
                Some(message) => if is_fired {
                    &&& res == Poll::Ready(
                        Some(
                            Envelope {
                                trace_id: match old(self).trace_id {
                                    Some(trace_id) => trace_id,
                                    None => new_trace_id,
                                },
                                kind: MessageKind::Regular { sender: Addr::spec_null() },
                                message,
                            },
                        ),
                    )
                    &&& final(self).message is None
                    &&& final(self).trace_id is None
                    &&& final(self).deadline == old(self).deadline
                } else {
                    &&& res is Pending
                    &&& *final(self) == *old(self)
                },
            },
    {
        // Terminate if the message is already emitted.
        if self.message.is_none() {
            return Poll::Ready(None);
        }

        // Wait for a tick from implementation.
        if !is_fired {
            return Poll::Pending;
        }

        // Emit the message.
        let message = self.message.take().unwrap();
        let trace_id = match self.trace_id.take() {
            Some(trace_id) => trace_id,
            None => new_trace_id,
        };
        let kind = MessageKind::Regular { sender: Addr::null() };
        Poll::Ready(Some(Envelope::new(trace_id, kind, message)))
    }
}

// === Laws ===

/// A delayed message is emitted once the time comes, only once, in the trace where it's
/// scheduled.
pub proof fn delayed_message_is_emitted_once(
    now: Nanos,
    delay: Nanos,
    message: AnyMessage,
    trace_id: TraceId,
    new_trace_id: TraceId,
    waiting: &mut Delay,
    fired: &mut Delay,
    ended: &mut Delay,
    is_fired: bool,
    a: Poll<Option<Envelope>>,
    b: Poll<Option<Envelope>>,
    c: Poll<Option<Envelope>>,
)
    requires
        call_ensures(Delay::new, (now, delay, message, trace_id), *old(waiting)),
        now + delay <= u128::MAX,
        call_ensures(Delay::poll_recv, (waiting, false, new_trace_id), a),
        *old(fired) == *final(waiting),
        call_ensures(Delay::poll_recv, (fired, true, new_trace_id), b),
        *old(ended) == *final(fired),
        call_ensures(Delay::poll_recv, (ended, is_fired, new_trace_id), c),
    ensures
        old(waiting).deadline == now + delay,
        a is Pending && *final(waiting) == *old(waiting),
        b is Ready && b->Ready_0 is Some,
        ({
            let envelope = b->Ready_0->0;
            &&& envelope.message == message
            &&& envelope.trace_id == trace_id
            &&& envelope.kind matches MessageKind::Regular { sender } && sender.bits == 0
        }),
        c == Poll::Ready(None::<Envelope>),
{
}

/// The moment can be given as is. A terminated delay is out of reach.
pub proof fn terminated_delay_is_out_of_reach(
    when: Nanos,
    message: AnyMessage,
    trace_id: TraceId,
    delay: &mut Delay,
    now: Nanos,
)
    requires
        call_ensures(Delay::until, (when, message, trace_id), *old(delay)),
        now + FAR <= u128::MAX,
        call_ensures(Delay::terminate, (delay, now), ()),
    ensures
        old(delay).deadline == when && old(delay).message == Some(message)
            && old(delay).trace_id == Some(trace_id),
        final(delay).deadline == now + 30 * 365 * 24 * 60 * 60 * 1_000_000_000,
        final(delay).message == old(delay).message,
{
}

} // verus!
