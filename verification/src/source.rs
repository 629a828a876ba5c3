//! Sources of messages that are attached to an actor.

use vstd::prelude::*;

use crate::addr::Addr;
use crate::envelope::{Envelope, MessageKind};
use crate::message::AnyMessage;
use crate::poll::Poll;
use crate::tracing::TraceId;

verus! {

// === SourceHandle ===

/// Common methods of handles.
pub trait SourceHandle {
    /// Whether the source never emits messages anymore.
    fn is_terminated(&self) -> bool;

    /// Drops the source, it never emits messages anymore.
    fn terminate(&mut self);
}

// === StreamStatus ===

#[derive(Debug, Clone, Copy, PartialEq, Eq, Structural, Hash)]
pub enum StreamStatus {
    Terminated,
    Stream,
    Oneshot,
}

/// What to do after a source has been polled.
#[derive(Debug, Clone, Copy, PartialEq, Eq, Structural, Hash)]
pub enum AfterPoll {
    /// Remember the waker to be able to poll the source after reconfiguration.
    UpdateWaker,
    /// Drop the stream.
    Terminate,
    /// The source will be polled again.
    Nothing,
}

/// A stream behind a handle. The stream is dropped at most once.
#[derive(Debug)]
pub struct StreamWithWaker<S> {
    status: StreamStatus,
    stream: Option<S>,
}

impl<S> StreamWithWaker<S> {
    pub closed spec fn spec_status(&self) -> StreamStatus {
        self.status
    }

    pub closed spec fn spec_stream(&self) -> Option<S> {
        self.stream
    }

    #[verifier::type_invariant]
    closed spec fn inv(&self) -> bool {
        self.status is Terminated <==> self.stream is None
    }

    pub fn new(stream: S, oneshot: bool) -> (this: StreamWithWaker<S>)
        ensures
            this.spec_stream() == Some(stream),
            this.spec_status() == (if oneshot {
                StreamStatus::Oneshot
            } else {
                StreamStatus::Stream
            }),
    {
        StreamWithWaker {
            status: if oneshot {
                StreamStatus::Oneshot
            } else {
                StreamStatus::Stream
            },
            stream: Some(stream),
        }
    }

    pub fn status(&self) -> (status: StreamStatus)
        ensures
            status == self.spec_status(),
    {
        self.status
    }

    /// Gives an access to the stream unless it's terminated.
    pub fn lock(&self) -> (res: Option<&S>)
        ensures
            res is None <==> self.spec_status() is Terminated,
            res matches Some(stream) ==> self.spec_stream() == Some(*stream),
    {
        proof {
            use_type_invariant(self);
        }
        match &self.stream {
            Some(stream) => Some(stream),
            None => None,
        }
    }

    /// Takes the stream out to drop it.
    pub fn terminate(&mut self) -> (stream: S)
        requires
            !(old(self).spec_status() is Terminated),
        ensures
            final(self).spec_status() is Terminated,
            final(self).spec_stream() is None,
            old(self).spec_stream() == Some(stream),
    {
        proof {
            use_type_invariant(&*self);
        }
        let mut other = StreamWithWaker { status: StreamStatus::Terminated, stream: None };
        std::mem::swap(self, &mut other);
        proof {
            use_type_invariant(&other);
        }
        other.stream.unwrap()
    }

    /// Takes the stream out if its owner is dropped. Other handles may still
    /// exist, they get nothing.
    pub fn drop_by(&mut self, is_owner: bool) -> (stream: Option<S>)
        ensures
            is_owner ==> {
                &&& final(self).spec_status() is Terminated
                &&& final(self).spec_stream() is None
                &&& stream == old(self).spec_stream()
            },
            !is_owner ==> stream is None && *final(self) == *old(self),
    {
        proof {
            use_type_invariant(&*self);
        }
        if !is_owner {
            return None;
        }

        match self.status {
            StreamStatus::Terminated => None,
            _ => Some(self.terminate()),
        }
    }

    /// Whether the stream is dropped after it has returned `result`.
    pub open spec fn ends_after<T>(status: StreamStatus, result: Poll<Option<T>>) -> bool {
        match result {
            Poll::Pending => false,
            Poll::Ready(item) => item is None || status is Oneshot,
        }
    }

    /// Decides what to do once the stream has returned `result`.
    pub fn after_poll<T>(&self, result: &Poll<Option<T>>) -> (action: AfterPoll)
        requires
            !(self.spec_status() is Terminated),
        ensures
            action == (if *result is Pending {
                AfterPoll::UpdateWaker
            } else if Self::ends_after(self.spec_status(), *result) {
                AfterPoll::Terminate
            } else {
                AfterPoll::Nothing
            }),
    {
        let is_oneshot = match self.status {
            StreamStatus::Oneshot => true,
            _ => false,
        };
        match result {
            Poll::Pending => AfterPoll::UpdateWaker,
            Poll::Ready(None) => AfterPoll::Terminate,
            Poll::Ready(Some(_)) => if is_oneshot {
                AfterPoll::Terminate
            } else {
                AfterPoll::Nothing
            },
        }
    }

    /// Processes `result` of polling the stream, `None` if there is nothing to
    /// poll.
    pub fn poll_next<T>(&mut self, result: Option<Poll<Option<T>>>) -> (res: Poll<Option<T>>)
        requires
            result is None <==> old(self).spec_status() is Terminated,
        ensures
            match result {
                None => res == Poll::Ready(None::<T>) && *final(self) == *old(self),
                Some(result) => {
                    &&& res == result
                    &&& if Self::ends_after(old(self).spec_status(), result) {
                        final(self).spec_status() is Terminated && final(self).spec_stream() is None
                    } else {
                        *final(self) == *old(self)
                    }
                },
            },
    {
        match result {
            // This is where the stream is actually removed from the list.
            None => Poll::Ready(None),
            Some(result) => {
                match self.after_poll(&result) {
                    AfterPoll::Terminate => {
                        let _ = self.terminate();
                    },
                    _ => {},
                }
                result
            },
        }
    }
}

impl<S> SourceHandle for StreamWithWaker<S> {
    fn is_terminated(&self) -> (res: bool)
        ensures
            res == (self.spec_status() is Terminated),
    {
        match self.status {
            StreamStatus::Terminated => true,
            _ => false,
        }
    }

    fn terminate(&mut self)
        ensures
            final(self).spec_status() is Terminated,
            final(self).spec_stream() is None,
    {
        let _ = self.drop_by(true);
    }
}

/// Whether an envelope carries a copy of the message from nobody.
pub open spec fn is_emitted(envelope: Envelope, message: AnyMessage, trace_id: TraceId) -> bool {
    &&& envelope.trace_id == trace_id
    &&& envelope.kind == (MessageKind::Regular { sender: Addr::spec_null() })
    &&& envelope.message.vtable == message.vtable
    &&& envelope.message.data@ == message.data@
}

/// Makes an envelope for a message that is emitted by a source.
pub fn emit(message: &AnyMessage, trace_id: TraceId) -> (envelope: Envelope)
    ensures
        is_emitted(envelope, *message, trace_id),
{
    Envelope::new(trace_id, MessageKind::Regular { sender: Addr::null() }, message.duplicate())
}

// === Laws ===

/// A stream is polled until it ends. One that gives a single item ends with it.
pub proof fn stream_is_polled_until_end<S, T>(
    stream: S,
    oneshot: bool,
    source: &mut StreamWithWaker<S>,
    result: Poll<Option<T>>,
    res: Poll<Option<T>>,
    status: StreamStatus,
    access: Option<&S>,
    before: Option<&S>,
    is_terminated: bool,
    action: AfterPoll,
)
    requires
        call_ensures(StreamWithWaker::<S>::new, (stream, oneshot), *old(source)),
        call_ensures(StreamWithWaker::<S>::lock, (old(source),), before),
        call_ensures(StreamWithWaker::<S>::after_poll::<T>, (old(source), &result), action),
        call_ensures(StreamWithWaker::<S>::poll_next::<T>, (source, Some(result)), res),
        call_ensures(StreamWithWaker::<S>::status, (final(source),), status),
        call_ensures(StreamWithWaker::<S>::lock, (final(source),), access),
        call_ensures(
            <StreamWithWaker<S> as SourceHandle>::is_terminated,
            (final(source),),
            is_terminated,
        ),
    ensures
        before is Some && *before->0 == stream,
        res == result,
        result is Pending ==> status == (if oneshot {
            StreamStatus::Oneshot
        } else {
            StreamStatus::Stream
        }),
        result is Pending ==> access is Some && *access->0 == stream && !is_terminated,
        result is Ready && result->Ready_0 is None ==> status is Terminated && access is None
            && is_terminated,
        result is Ready && result->Ready_0 is Some ==> {
            &&& oneshot <==> status is Terminated
            &&& oneshot <==> access is None
            &&& oneshot <==> is_terminated
        },
        action is UpdateWaker <==> result is Pending,
        action is Terminate <==> is_terminated,
{
}

/// A terminated stream is dropped exactly once, and only its owner drops it. After that
/// there is nothing to poll.
pub proof fn stream_is_dropped_once<S, T>(
    stream: S,
    oneshot: bool,
    by_owner: &mut StreamWithWaker<S>,
    again: &mut StreamWithWaker<S>,
    by_other: &mut StreamWithWaker<S>,
    terminated: &mut StreamWithWaker<S>,
    polled: &mut StreamWithWaker<S>,
    a: Option<S>,
    b: Option<S>,
    c: Option<S>,
    d: S,
    e: Poll<Option<T>>,
)
    requires
        call_ensures(StreamWithWaker::<S>::new, (stream, oneshot), *old(by_owner)),
        *old(by_other) == *old(by_owner) && *old(terminated) == *old(by_owner),
        call_ensures(StreamWithWaker::<S>::drop_by, (by_owner, true), a),
        *old(again) == *final(by_owner),
        call_ensures(StreamWithWaker::<S>::drop_by, (again, true), b),
        call_ensures(StreamWithWaker::<S>::drop_by, (by_other, false), c),
        call_ensures(StreamWithWaker::<S>::terminate, (terminated,), d),
        *old(polled) == *final(terminated),
        call_ensures(StreamWithWaker::<S>::poll_next::<T>, (polled, None), e),
    ensures
        a == Some(stream) && b is None,
        c is None && *final(by_other) == *old(by_other),
        d == stream,
        final(terminated).spec_status() is Terminated,
        e == Poll::Ready(None::<T>),
{
}

/// A source emits a copy of the message on behalf of nobody, in the given trace.
pub proof fn copy_is_emitted_by_nobody(message: AnyMessage, trace_id: TraceId, envelope: Envelope)
    requires
        call_ensures(emit, (&message, trace_id), envelope),
    ensures
        envelope.trace_id == trace_id,
        envelope.message.vtable == message.vtable && envelope.message.data@ == message.data@,
        envelope.kind matches MessageKind::Regular { sender } && sender.bits == 0,
{
}

/// A dropped source is terminated, it never emits messages anymore.
pub proof fn dropped_source_is_terminated<S>(
    source: &mut StreamWithWaker<S>,
    access: Option<&S>,
    is_terminated: bool,
)
    requires
        call_ensures(<StreamWithWaker<S> as SourceHandle>::terminate, (source,), ()),
        call_ensures(StreamWithWaker::<S>::lock, (final(source),), access),
        call_ensures(
            <StreamWithWaker<S> as SourceHandle>::is_terminated,
            (final(source),),
            is_terminated,
        ),
    ensures
        is_terminated && access is None,
{
}

} // verus!
