use vstd::prelude::*;

verus! {

// === MessageTypeId ===

/// A unique (inside a compilation target) identifier of a message type.
///
/// Zero is used for [`AnyMessage`](crate::message::AnyMessage).
#[derive(Debug, Clone, Copy, PartialEq, Eq, Structural, Hash)]
pub struct MessageTypeId {
    pub raw: u64,
}

impl MessageTypeId {
    /// The id of messages that are described by `vtable`.
    pub fn new(vtable: &MessageVTable) -> (id: MessageTypeId)
        ensures
            id == vtable.id,
    {
        vtable.id
    }

    /// The id that stands for any message.
    pub open spec fn spec_any() -> MessageTypeId {
        MessageTypeId { raw: 0 }
    }

    #[verifier::when_used_as_spec(spec_any)]
    pub fn any() -> (id: MessageTypeId)
        ensures
            id == MessageTypeId::spec_any(),
    {
        MessageTypeId { raw: 0 }
    }
}

// === MessageVTable ===

/// What is known about a message type.
#[derive(Debug)]
pub struct MessageVTable {
    pub id: MessageTypeId,
    pub name: String,
    pub protocol: String,
    pub dumping_allowed: bool,
}

impl MessageVTable {
    /// Describes the message type that is registered under `id`.
    pub fn new(id: MessageTypeId, name: String, protocol: String, dumping_allowed: bool) -> (this:
        MessageVTable)
        requires
            id != MessageTypeId::any(),
        ensures
            this.wf(),
            this.id == id,
            this.name == name,
            this.protocol == protocol,
            this.dumping_allowed == dumping_allowed,
    {
        MessageVTable { id, name, protocol, dumping_allowed }
    }

    /// No message type has the id of any message.
    pub open spec fn wf(&self) -> bool {
        self.id != MessageTypeId::spec_any()
    }

    /// The protocol and the name.
    pub open spec fn signature(&self) -> (Seq<char>, Seq<char>) {
        (self.protocol@, self.name@)
    }

    /// Labels of metrics that are related to messages of the type.
    pub fn labels(&self) -> (labels: [(&'static str, String); 2])
        ensures
            labels[0].0@ == "message"@,
            labels[0].1 == self.name,
            labels[1].0@ == "protocol"@,
            labels[1].1 == self.protocol,
    {
        [("message", self.name.clone()), ("protocol", self.protocol.clone())]
    }

    /// Makes a copy.
    pub fn duplicate(&self) -> (copy: MessageVTable)
        ensures
            copy == *self,
    {
        MessageVTable {
            id: self.id,
            name: self.name.clone(),
            protocol: self.protocol.clone(),
            dumping_allowed: self.dumping_allowed,
        }
    }
}

// === Laws ===

/// Messages of a type have its id, which is never the one of any message.
pub proof fn types_have_own_ids(
    id: MessageTypeId,
    name: String,
    protocol: String,
    dumping_allowed: bool,
    vtable: MessageVTable,
    own: MessageTypeId,
    any: MessageTypeId,
    copy: MessageVTable,
)
    requires
        id.raw != 0,
        call_ensures(MessageVTable::new, (id, name, protocol, dumping_allowed), vtable),
        call_ensures(MessageTypeId::new, (&vtable,), own),
        call_ensures(MessageTypeId::any, (), any),
        call_ensures(MessageVTable::duplicate, (&vtable,), copy),
    ensures
        own == id && own != any && any.raw == 0,
        vtable.name == name && vtable.protocol == protocol && vtable.dumping_allowed
            == dumping_allowed,
        copy.id == id && copy.name@ == name@ && copy.protocol@ == protocol@
            && copy.dumping_allowed == dumping_allowed,
{
}

/// Labels tell both the name and the protocol.
pub proof fn labels_tell_signature(vtable: MessageVTable, labels: [(&'static str, String); 2])
    requires
        call_ensures(MessageVTable::labels, (&vtable,), labels),
    ensures
        labels[0].0@ == "message"@ && labels[0].1@ == vtable.name@,
        labels[1].0@ == "protocol"@ && labels[1].1@ == vtable.protocol@,
{
}

} // verus!
