//! A source that emits messages of a stream.

use vstd::prelude::*;

use crate::addr::Addr;
use crate::envelope::{Envelope, MessageKind};
use crate::message::AnyMessage;
use crate::poll::Poll;
use crate::tracing::TraceId;

verus! {

/// Something that can be emitted by a stream.
pub enum StreamItem {
    Message(AnyMessage),
    /// Both variants are emitted as messages.
    Fallible(Result<AnyMessage, AnyMessage>),
}

impl StreamItem {
    pub open spec fn message(self) -> AnyMessage {
        match self {
            StreamItem::Message(message) => message,
            StreamItem::Fallible(Ok(message)) => message,
            StreamItem::Fallible(Err(message)) => message,
        }
    }

    pub fn to_any_message(self) -> (message: AnyMessage)
        ensures
            message == self.message(),
    {
        match self {
            StreamItem::Message(message) => message,
            StreamItem::Fallible(Ok(message)) => message,
            StreamItem::Fallible(Err(message)) => message,
        }
    }
}

/// The tracing state of a stream.
#[derive(Debug, Clone, Copy, PartialEq, Eq, Structural)]
pub struct StreamSource {
    /// The trace id of the scope that the stream is polled in.
    pub trace_id: TraceId,
    pub rewrite_trace_id: bool,
}

/// A source that emits messages from a provided stream or future.
///
/// # Tracing
///
/// * If the stream created using [`Stream::from_futures03()`], every message
///   starts a new trace.
/// * If created using [`Stream::once()`], the current trace is preserved.
/// * If created using [`Stream::generate()`], the current trace is preserved.
#[derive(Debug, Clone, Copy, PartialEq, Eq, Structural)]
pub struct Stream {
    pub source: StreamSource,
}

impl Stream {
    /// A source based on a stream. `generated` is a new trace id.
    pub fn from_futures03(current: TraceId, generated: TraceId) -> (this: Stream)
        ensures
            this.source.rewrite_trace_id,
            this.source.trace_id == generated,
    {
        Stream { source: StreamSource::new(current, generated, true) }
    }

    /// A source based on a future.
    pub fn once(current: TraceId) -> (this: Stream)
        ensures
            !this.source.rewrite_trace_id,
            this.source.trace_id == current,
    {
        Stream { source: StreamSource::new(current, current, false) }
    }

    /// A source based on a generator.
    pub fn generate(current: TraceId) -> (this: Stream)
        ensures
            !this.source.rewrite_trace_id,
            this.source.trace_id == current,
    {
        Stream { source: StreamSource::new(current, current, false) }
    }
}

impl StreamSource {
    /// If trace ids are rewritten, every item starts a new trace.
    pub fn new(current: TraceId, generated: TraceId, rewrite_trace_id: bool) -> (this: StreamSource)
        ensures
            this.rewrite_trace_id == rewrite_trace_id,
            this.trace_id == (if rewrite_trace_id {
                generated
            } else {
                current
            }),
    {
        StreamSource {
            trace_id: if rewrite_trace_id {
                generated
            } else {
                current
            },
            rewrite_trace_id,
        }
    }

    /// The trace id that the stream is polled in the next time.
    pub open spec fn next_trace_id(
        self,
        item: Poll<Option<StreamItem>>,
        scoped: TraceId,
        generated: TraceId,
    ) -> TraceId {
        match item {
            Poll::Ready(Some(_)) => if self.rewrite_trace_id {
                generated
            } else {
                scoped
            },
            Poll::Ready(None) => self.trace_id,
            Poll::Pending => scoped,
        }
    }

    /// Processes `item` of the stream. `scoped` is the trace id of the scope
    /// right after polling, it can be changed by the stream.
    pub fn poll_recv(
        &mut self,
        item: Poll<Option<StreamItem>>,
        scoped: TraceId,
        generated: TraceId,
    ) -> (res: Poll<Option<Envelope>>)
        ensures
            final(self).rewrite_trace_id == old(self).rewrite_trace_id,
            final(self).trace_id == old(self).next_trace_id(item, scoped, generated),
            match item {
                Poll::Ready(Some(item)) => res matches Poll::Ready(Some(envelope)) && {
                    &&& envelope.trace_id == scoped
                    &&& envelope.kind == (MessageKind::Regular { sender: Addr::spec_null() })
                    &&& envelope.message == item.message()
                },
                Poll::Ready(None) => res == Poll::Ready(None::<Envelope>),
                Poll::Pending => res is Pending,
            },
    {
        match item {
            Poll::Ready(Some(item)) => {
                self.trace_id = if self.rewrite_trace_id {
                    generated
                } else {
                    scoped
                };

                let kind = MessageKind::Regular { sender: Addr::null() };
                Poll::Ready(Some(Envelope::new(scoped, kind, item.to_any_message())))
            },
            Poll::Ready(None) => Poll::Ready(None),
            Poll::Pending => {
                self.trace_id = scoped;
                Poll::Pending
            },
        }
    }
}

// === Laws ===

/// If trace ids aren't rewritten, the stream is polled in the trace where it has
/// been polled before.
pub proof fn trace_is_preserved(
    source: StreamSource,
    item: Poll<Option<StreamItem>>,
    generated: TraceId,
)
    requires
        !source.rewrite_trace_id,
    ensures
        source.next_trace_id(item, source.trace_id, generated) == source.trace_id,
{
}

/// If trace ids are rewritten, a new trace is started after every message.
pub proof fn every_message_starts_trace(
    source: StreamSource,
    item: StreamItem,
    scoped: TraceId,
    generated: TraceId,
)
    requires
        source.rewrite_trace_id,
    ensures
        source.next_trace_id(Poll::Ready(Some(item)), scoped, generated) == generated,
{
}

/// Both a message and an error, which is also a message, are emitted as is.
pub proof fn items_are_emitted_as_is(
    message: AnyMessage,
    a: AnyMessage,
    b: AnyMessage,
    c: AnyMessage,
)
    requires
        call_ensures(StreamItem::to_any_message, (StreamItem::Message(message),), a),
        call_ensures(StreamItem::to_any_message, (StreamItem::Fallible(Ok(message)),), b),
        call_ensures(StreamItem::to_any_message, (StreamItem::Fallible(Err(message)),), c),
    ensures
        a == message && b == message && c == message,
{
}

/// Messages of a stream start new traces one by one, messages of a future or of
/// a generator stay in the trace where they are produced.
pub proof fn traces_follow_kind_of_stream(
    current: TraceId,
    generated: TraceId,
    scoped: TraceId,
    next: TraceId,
    stream: Stream,
    once: Stream,
    generate: Stream,
    a: &mut StreamSource,
    b: &mut StreamSource,
    item: StreamItem,
    message: AnyMessage,
    x: Poll<Option<Envelope>>,
    y: Poll<Option<Envelope>>,
)
    requires
        call_ensures(Stream::from_futures03, (current, generated), stream),
        call_ensures(Stream::once, (current,), once),
        call_ensures(Stream::generate, (current,), generate),
        *old(a) == stream.source,
        *old(b) == once.source || *old(b) == generate.source,
        call_ensures(StreamItem::to_any_message, (item,), message),
        call_ensures(StreamSource::poll_recv, (a, Poll::Ready(Some(item)), scoped, next), x),
        call_ensures(StreamSource::poll_recv, (b, Poll::Ready(Some(item)), scoped, next), y),
    ensures
        old(a).trace_id == generated && final(a).trace_id == next,
        old(b).trace_id == current && final(b).trace_id == scoped,
        x == y,
        x is Ready && x->Ready_0 is Some,
        x->Ready_0->0.trace_id == scoped,
        x->Ready_0->0.message == message,
        x->Ready_0->0.kind matches MessageKind::Regular { sender } && sender.bits == 0,
        final(a).rewrite_trace_id == old(a).rewrite_trace_id,
        final(b).rewrite_trace_id == old(b).rewrite_trace_id,
{
}

/// Until there is a message, the stream goes on in the trace that it has changed to.
pub proof fn pending_stream_keeps_its_trace(
    source: &mut StreamSource,
    ended: &mut StreamSource,
    scoped: TraceId,
    generated: TraceId,
    a: Poll<Option<Envelope>>,
    b: Poll<Option<Envelope>>,
)
    requires
        call_ensures(
            StreamSource::poll_recv,
            (source, Poll::Pending::<Option<StreamItem>>, scoped, generated),
            a,
        ),
        call_ensures(
            StreamSource::poll_recv,
            (ended, Poll::Ready(None::<StreamItem>), scoped, generated),
            b,
        ),
    ensures
        a is Pending && final(source).trace_id == scoped,
        b == Poll::Ready(None::<Envelope>) && *final(ended) == *old(ended),
        final(source).rewrite_trace_id == old(source).rewrite_trace_id,
{
}

/// A source starts in a new trace iff trace ids are rewritten.
pub proof fn first_trace_follows_setting(
    current: TraceId,
    generated: TraceId,
    a: StreamSource,
    b: StreamSource,
)
    requires
        call_ensures(StreamSource::new, (current, generated, true), a),
        call_ensures(StreamSource::new, (current, generated, false), b),
    ensures
        a.trace_id == generated && a.rewrite_trace_id,
        b.trace_id == current && !b.rewrite_trace_id,
{
}

} // verus!
