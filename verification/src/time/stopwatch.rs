use vstd::prelude::*;

use super::Nanos;
use crate::addr::Addr;
use crate::envelope::{Envelope, MessageKind};
use crate::message::AnyMessage;
use crate::poll::Poll;
use crate::tracing::TraceId;

verus! {

/// A source that produces a message after a scheduled duration.
///
/// Does nothing until scheduled.
pub struct Stopwatch<F> {
    pub message_factory: F,
    /// When the timer fires.
    pub deadline: Nanos,
    pub should_fire: bool,
}

impl<F> Stopwatch<F> {
    /// Creates a new `Stopwatch`.
    pub fn new(f: F, now: Nanos) -> (this: Stopwatch<F>)
        ensures
            this == (Stopwatch { message_factory: f, deadline: now, should_fire: false }),
    {
        Stopwatch { message_factory: f, deadline: now, should_fire: false }
    }

    /// Produces a message when `deadline` is reached.
    pub fn schedule_at(&mut self, deadline: Nanos)
        ensures
            *final(self) == (Stopwatch { deadline, should_fire: true, ..*old(self) }),
    {
        self.should_fire = true;
        self.deadline = deadline;
    }

    /// Produces a message once `duration` has elapsed.
    pub fn schedule_after(&mut self, now: Nanos, duration: Nanos)
        requires
            now + duration <= u128::MAX,
        ensures
            *final(self) == (Stopwatch {
                deadline: (now + duration) as u128,
                should_fire: true,
                ..*old(self)
            }),
    {
        self.schedule_at(now + duration)
    }
}

impl<F: Fn() -> AnyMessage> Stopwatch<F> {
    /// Emits a message if it's scheduled and the timer fires, only once.
    pub fn poll_recv(&mut self, is_fired: bool, new_trace_id: TraceId) -> (res: Poll<
        Option<Envelope>,
    >)
        requires
            call_requires(old(self).message_factory, ()),
        ensures
            if old(self).should_fire && is_fired {
                &&& res matches Poll::Ready(Some(envelope)) && {
                    &&& envelope.trace_id == new_trace_id
                    &&& envelope.kind == (MessageKind::Regular { sender: Addr::spec_null() })
                    &&& call_ensures(old(self).message_factory, (), envelope.message)
                }
                &&& *final(self) == (Stopwatch { should_fire: false, ..*old(self) })
            } else {
                &&& res is Pending
                &&& *final(self) == *old(self)
            },
    {
        if self.should_fire && is_fired {
            self.should_fire = false;

            // Emit a message.
            let message = (self.message_factory)();
            let kind = MessageKind::Regular { sender: Addr::null() };
            return Poll::Ready(Some(Envelope::new(new_trace_id, kind, message)));
        }

        Poll::Pending
    }
}

// === Laws ===

/// A stopwatch emits one message once the scheduled time comes, and nothing until it's
/// scheduled again.
pub proof fn stopwatch_fires_once<F: Fn() -> AnyMessage>(
    f: F,
    now: Nanos,
    duration: Nanos,
    idle: &mut Stopwatch<F>,
    scheduled: &mut Stopwatch<F>,
    fired: &mut Stopwatch<F>,
    again: &mut Stopwatch<F>,
    moved: &mut Stopwatch<F>,
    is_fired: bool,
    trace_id: TraceId,
    a: Poll<Option<Envelope>>,
    b: Poll<Option<Envelope>>,
    c: Poll<Option<Envelope>>,
)
    requires
        now + duration <= u128::MAX,
        call_ensures(Stopwatch::<F>::new, (f, now), *old(idle)),
        call_ensures(Stopwatch::<F>::poll_recv, (idle, is_fired, trace_id), a),
        *old(scheduled) == *final(idle),
        call_ensures(Stopwatch::<F>::schedule_after, (scheduled, now, duration), ()),
        *old(fired) == *final(scheduled),
        call_ensures(Stopwatch::<F>::poll_recv, (fired, is_fired, trace_id), b),
        *old(again) == *final(fired),
        call_ensures(Stopwatch::<F>::poll_recv, (again, true, trace_id), c),
        *old(moved) == *final(fired),
        call_ensures(Stopwatch::<F>::schedule_at, (moved, duration), ()),
    ensures
        a is Pending,
        final(scheduled).deadline == now + duration,
        !is_fired ==> b is Pending,
        is_fired ==> {
            &&& b is Ready && b->Ready_0 is Some
            &&& b->Ready_0->0.trace_id == trace_id
            &&& call_ensures(f, (), b->Ready_0->0.message)
            &&& (b->Ready_0->0.kind matches MessageKind::Regular { sender } && sender.bits == 0)
            &&& c is Pending
        },
        final(moved).deadline == duration && final(moved).should_fire,
{
}

} // verus!
