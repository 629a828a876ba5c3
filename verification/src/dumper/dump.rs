use vstd::prelude::*;

use crate::actor::ActorMeta;
use crate::tracing::TraceId;

verus! {

/// The class of dumps that are made by the system itself.
pub fn internal_class() -> (class: &'static str)
    ensures
        class@ == "internal"@,
{
    "internal"
}

/// Whether a message is received or sent.
#[derive(Debug, Clone, Copy, PartialEq, Eq, Structural, Hash)]
pub enum Direction {
    In,
    Out,
}

/// The kind of a dumped message, with a correlation id of requests and
/// responses.
#[derive(Debug, Clone, Copy, PartialEq, Eq, Structural, Hash)]
pub enum MessageKind {
    Regular,
    Request(u64),
    Response(u64),
}

/// A dumped message with all its meta. The message is already serialized.
#[derive(Debug)]
pub struct Dump {
    pub meta: ActorMeta,
    pub sequence_no: u64,
    pub timestamp: u64,
    pub trace_id: TraceId,
    pub thread_id: u64,
    pub direction: Direction,
    pub message_name: String,
    pub message_protocol: String,
    pub message_kind: MessageKind,
    pub message: Vec<u8>,
}

// === Laws ===

/// The internal class has a fixed name.
pub proof fn internal_class_is_named(class: &str)
    requires
        call_ensures(internal_class, (), class),
    ensures
        class@ == "internal"@,
{
}

} // verus!
