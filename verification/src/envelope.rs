//! Messages on their way.

use vstd::prelude::*;

use crate::addr::Addr;
use crate::message::AnyMessage;
use crate::request_table::{RequestId, RequestState, RequestTable, ResponseToken};
use crate::tracing::TraceId;

verus! {

/// How a message is sent.
#[derive(Debug)]
pub enum MessageKind {
    Regular { sender: Addr },
    RequestAny(ResponseToken),
    RequestAll(ResponseToken),
    Response { sender: Addr, request_id: RequestId },
}

/// A message with everything that's needed to deliver and to answer it.
#[derive(Debug)]
pub struct Envelope {
    pub trace_id: TraceId,
    pub kind: MessageKind,
    pub message: AnyMessage,
}

impl Envelope {
    pub fn new(trace_id: TraceId, kind: MessageKind, message: AnyMessage) -> (this: Envelope)
        ensures
            this.trace_id == trace_id,
            this.kind == kind,
            this.message == message,
    {
        Envelope { trace_id, kind, message }
    }

    /// Who has sent the message, the null address for forgotten requests.
    pub open spec fn spec_sender(&self) -> Addr {
        match self.kind {
            MessageKind::Regular { sender } => sender,
            MessageKind::RequestAny(token) => token.spec_sender(),
            MessageKind::RequestAll(token) => token.spec_sender(),
            MessageKind::Response { sender, .. } => sender,
        }
    }

    pub fn sender(&self) -> (addr: Addr)
        ensures
            addr == self.spec_sender(),
    {
        match &self.kind {
            MessageKind::Regular { sender } => *sender,
            MessageKind::RequestAny(token) => token.sender_or_null(),
            MessageKind::RequestAll(token) => token.sender_or_null(),
            MessageKind::Response { sender, .. } => *sender,
        }
    }

    /// Replaces the message, the rest stays.
    pub fn set_message(&mut self, message: AnyMessage)
        ensures
            final(self).message == message,
            final(self).kind == old(self).kind,
            final(self).trace_id == old(self).trace_id,
    {
        self.message = message;
    }

    /// What a copy of the envelope is. Tokens of requests are duplicated, so
    /// the requester waits for one more response.
    pub open spec fn is_duplicate(&self, copy: Envelope) -> bool {
        &&& copy.trace_id == self.trace_id
        &&& copy.message.vtable == self.message.vtable
        &&& copy.message.data@ == self.message.data@
        &&& match self.kind {
            MessageKind::Regular { .. } => copy.kind == self.kind,
            MessageKind::RequestAny(token) => copy.kind matches MessageKind::RequestAny(other)
                && token.is_copied_to(other),
            MessageKind::RequestAll(token) => copy.kind matches MessageKind::RequestAll(other)
                && token.is_copied_to(other),
            MessageKind::Response { .. } => copy.kind == self.kind,
        }
    }

    /// The token if it's a request.
    pub open spec fn spec_token(&self) -> Option<ResponseToken> {
        match self.kind {
            MessageKind::RequestAny(token) => Some(token),
            MessageKind::RequestAll(token) => Some(token),
            _ => None,
        }
    }

    /// What the token of a copy holds if there is no table of the sender.
    pub open spec fn is_duplicated_alone(&self, copy: Envelope) -> bool {
        self.spec_token() matches Some(token) ==> copy.spec_token()->0.data
            == token.data_without_table()
    }

    /// What happens with the table of the sender.
    pub open spec fn is_duplicated_in(
        &self,
        before: Map<u64, RequestState>,
        after: Map<u64, RequestState>,
        copy: Envelope,
    ) -> bool {
        match self.spec_token() {
            Some(token) => token.duplicated_in(before, after, copy.spec_token()->0),
            None => after == before,
        }
    }

    /// Makes a copy to send it to one more actor. `table` is the request table
    /// of the sender if it's a local actor.
    pub fn duplicate(&self, table: Option<&mut RequestTable>) -> (copy: Envelope)
        requires
            self.spec_token() matches Some(token) ==> token.can_be_duplicated(table),
        ensures
            self.is_duplicate(copy),
            table is None ==> self.is_duplicated_alone(copy),
            table matches Some(table) ==> {
                &&& self.is_duplicated_in(table@, final(table)@, copy)
                &&& final(table).owner() == table.owner()
            },
    {
        let kind = match &self.kind {
            MessageKind::Regular { sender } => MessageKind::Regular { sender: *sender },
            MessageKind::RequestAny(token) => MessageKind::RequestAny(token.duplicate(table)),
            MessageKind::RequestAll(token) => MessageKind::RequestAll(token.duplicate(table)),
            MessageKind::Response { sender, request_id } => MessageKind::Response {
                sender: *sender,
                request_id: *request_id,
            },
        };
        Envelope { trace_id: self.trace_id, kind, message: self.message.duplicate() }
    }
}

// === Laws ===

/// An envelope consists of what it's made of.
pub proof fn envelope_keeps_parts(
    trace_id: TraceId,
    kind: MessageKind,
    message: AnyMessage,
    envelope: Envelope,
)
    requires
        call_ensures(Envelope::new, (trace_id, kind, message), envelope),
    ensures
        envelope.trace_id == trace_id && envelope.kind == kind && envelope.message == message,
{
}

/// The sender is the one who has sent the message, also if it's a request that is
/// waited for. A forgotten request has no sender.
pub proof fn sender_is_known(envelope: Envelope, sender: Addr, token: ResponseToken)
    requires
        call_ensures(Envelope::sender, (&envelope,), sender),
        envelope.kind == MessageKind::RequestAny(token) || envelope.kind
            == MessageKind::RequestAll(token) || envelope.kind is Regular
            || envelope.kind is Response,
    ensures
        envelope.kind matches MessageKind::Regular { sender: addr } ==> sender == addr,
        envelope.kind matches MessageKind::Response { sender: addr, .. } ==> sender == addr,
        envelope.kind is RequestAny || envelope.kind is RequestAll ==> match token.data {
            Some(data) => sender == data.sender,
            None => sender.bits == 0,
        },
{
}

/// Only the message is replaced.
pub proof fn only_message_is_replaced(envelope: &mut Envelope, message: AnyMessage)
    requires
        call_ensures(Envelope::set_message, (envelope, message), ()),
    ensures
        *final(envelope) == (Envelope { message, ..*old(envelope) }),
{
}

/// A copy is the same for a recipient: it has the same message, trace and kind.
pub proof fn copy_is_same_for_recipient(envelope: Envelope, copy: Envelope)
    requires
        call_ensures(Envelope::duplicate, (&envelope, None), copy),
    ensures
        copy.trace_id == envelope.trace_id,
        copy.message.vtable == envelope.message.vtable,
        copy.message.data@ == envelope.message.data@,
        envelope.kind is Regular || envelope.kind is Response ==> copy.kind == envelope.kind,
        envelope.kind is RequestAny <==> copy.kind is RequestAny,
        envelope.kind is RequestAll <==> copy.kind is RequestAll,
{
}

} // verus!
