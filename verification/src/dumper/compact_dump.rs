use vstd::prelude::*;

use super::dump::{Direction, Dump, MessageKind};
use crate::addr::NodeNo;
use crate::tracing::TraceId;

verus! {

/// A dump as it's written to a file.
#[derive(Debug)]
pub struct CompactDump<'a> {
    pub dump: &'a Dump,
    pub class: &'a str,
    pub message_name: &'a str,
}

/// A field of a compact dump.
#[derive(Debug)]
pub enum Field<'a> {
    Timestamp(u64),
    Group(&'a str),
    Key(&'a str),
    /// `None` if the number of the node isn't known.
    Node(Option<NodeNo>),
    SequenceNo(u64),
    TraceId(TraceId),
    ThreadId(u64),
    Direction(Direction),
    Class(&'a str),
    MessageName(&'a str),
    MessageProtocol(&'a str),
    MessageKind(&'static str),
    Message(&'a Vec<u8>),
    CorrelationId(u64),
}

/// What a field holds.
pub enum FieldView {
    Timestamp(u64),
    Group(Seq<char>),
    Key(Seq<char>),
    /// `None` if the number of the node isn't known.
    Node(Option<NodeNo>),
    SequenceNo(u64),
    TraceId(TraceId),
    ThreadId(u64),
    Direction(Direction),
    Class(Seq<char>),
    MessageName(Seq<char>),
    MessageProtocol(Seq<char>),
    MessageKind(Seq<char>),
    Message(Seq<u8>),
    CorrelationId(u64),
}

impl<'a> View for Field<'a> {
    type V = FieldView;

    open spec fn view(&self) -> FieldView {
        match *self {
            Field::Timestamp(ts) => FieldView::Timestamp(ts),
            Field::Group(group) => FieldView::Group(group@),
            Field::Key(key) => FieldView::Key(key@),
            Field::Node(node_no) => FieldView::Node(node_no),
            Field::SequenceNo(no) => FieldView::SequenceNo(no),
            Field::TraceId(trace_id) => FieldView::TraceId(trace_id),
            Field::ThreadId(thread_id) => FieldView::ThreadId(thread_id),
            Field::Direction(direction) => FieldView::Direction(direction),
            Field::Class(class) => FieldView::Class(class@),
            Field::MessageName(name) => FieldView::MessageName(name@),
            Field::MessageProtocol(protocol) => FieldView::MessageProtocol(protocol@),
            Field::MessageKind(kind) => FieldView::MessageKind(kind@),
            Field::Message(message) => FieldView::Message(message@),
            Field::CorrelationId(id) => FieldView::CorrelationId(id),
        }
    }
}

impl FieldView {
    /// How the field is named in a file.
    pub open spec fn name(self) -> Seq<char> {
        match self {
            FieldView::Timestamp(_) => "ts"@,
            FieldView::Group(_) => "g"@,
            FieldView::Key(_) => "k"@,
            FieldView::Node(_) => "n"@,
            FieldView::SequenceNo(_) => "s"@,
            FieldView::TraceId(_) => "t"@,
            FieldView::ThreadId(_) => "th"@,
            FieldView::Direction(_) => "d"@,
            FieldView::Class(_) => "cl"@,
            FieldView::MessageName(_) => "mn"@,
            FieldView::MessageProtocol(_) => "mp"@,
            FieldView::MessageKind(_) => "mk"@,
            FieldView::Message(_) => "m"@,
            FieldView::CorrelationId(_) => "c"@,
        }
    }
}

impl<'a> Field<'a> {
    /// How the field is named in a file.
    pub fn name(&self) -> (name: &'static str)
        ensures
            name@ == self@.name(),
    {
        match self {
            Field::Timestamp(_) => "ts",
            Field::Group(_) => "g",
            Field::Key(_) => "k",
            Field::Node(_) => "n",
            Field::SequenceNo(_) => "s",
            Field::TraceId(_) => "t",
            Field::ThreadId(_) => "th",
            Field::Direction(_) => "d",
            Field::Class(_) => "cl",
            Field::MessageName(_) => "mn",
            Field::MessageProtocol(_) => "mp",
            Field::MessageKind(_) => "mk",
            Field::Message(_) => "m",
            Field::CorrelationId(_) => "c",
        }
    }
}

/// What fields hold.
pub open spec fn views(fields: Seq<Field<'_>>) -> Seq<FieldView> {
    fields.map_values(|field: Field<'_>| field@)
}

/// How the kind is written.
pub open spec fn kind_name(kind: MessageKind) -> Seq<char> {
    match kind {
        MessageKind::Regular => "Regular"@,
        MessageKind::Request(_) => "Request"@,
        MessageKind::Response(_) => "Response"@,
    }
}

/// A correlation id, if any.
pub open spec fn correlation_id(kind: MessageKind) -> Option<u64> {
    match kind {
        MessageKind::Regular => None,
        MessageKind::Request(id) => Some(id),
        MessageKind::Response(id) => Some(id),
    }
}

impl<'a> CompactDump<'a> {
    pub fn new(dump: &'a Dump, class: &'a str, message_name: &'a str) -> (this: CompactDump<'a>)
        ensures
            *this.dump == *dump,
            this.class@ == class@,
            this.message_name@ == message_name@,
    {
        CompactDump { dump, class, message_name }
    }

    /// The key of the actor, only if it isn't empty.
    pub open spec fn key_part(&self) -> Seq<FieldView> {
        if self.dump.meta.key@.len() > 0 {
            seq![FieldView::Key(self.dump.meta.key@)]
        } else {
            Seq::empty()
        }
    }

    /// The correlation id, only if the message is related to a request.
    pub open spec fn correlation_part(&self) -> Seq<FieldView> {
        match correlation_id(self.dump.message_kind) {
            Some(id) => seq![FieldView::CorrelationId(id)],
            None => Seq::empty(),
        }
    }

    /// All fields in order. The timestamp is the first one to make it possible
    /// to sort lines of a file.
    pub open spec fn spec_fields(&self, node_no: Option<NodeNo>) -> Seq<FieldView> {
        seq![
            FieldView::Timestamp(self.dump.timestamp),
            FieldView::Group(self.dump.meta.group@),
        ] + self.key_part() + seq![
            FieldView::Node(node_no),
            FieldView::SequenceNo(self.dump.sequence_no),
            FieldView::TraceId(self.dump.trace_id),
            FieldView::ThreadId(self.dump.thread_id),
            FieldView::Direction(self.dump.direction),
            FieldView::Class(self.class@),
            FieldView::MessageName(self.message_name@),
            FieldView::MessageProtocol(self.dump.message_protocol@),
            FieldView::MessageKind(kind_name(self.dump.message_kind)),
            FieldView::Message(self.dump.message@),
        ] + self.correlation_part()
    }

    /// How many fields are announced to a serializer. It's only a hint.
    pub fn field_count(&self) -> (count: usize)
        ensures
            count == 11 + self.key_part().len() + self.correlation_part().len(),
    {
        let mut count: usize = 11;
        if self.dump.meta.key.as_str().unicode_len() > 0 {
            count += 1;
        }
        match self.dump.message_kind {
            MessageKind::Regular => {},
            _ => count += 1,
        }
        count
    }

    /// Fields in the order that they must be written in.
    pub fn fields(&self, node_no: Option<NodeNo>) -> (fields: Vec<Field<'a>>)
        ensures
            views(fields@) == self.spec_fields(node_no),
    {
        let mut fields: Vec<Field<'a>> = Vec::new();

        // Dump `ts` firstly to make it possible to use `sort`.
        fields.push(Field::Timestamp(self.dump.timestamp));
        fields.push(Field::Group(self.dump.meta.group.as_str()));

        if self.dump.meta.key.as_str().unicode_len() > 0 {
            fields.push(Field::Key(self.dump.meta.key.as_str()));
        }

        fields.push(Field::Node(node_no));
        fields.push(Field::SequenceNo(self.dump.sequence_no));
        fields.push(Field::TraceId(self.dump.trace_id));
        fields.push(Field::ThreadId(self.dump.thread_id));
        fields.push(Field::Direction(self.dump.direction));
        fields.push(Field::Class(self.class));
        fields.push(Field::MessageName(self.message_name));
        fields.push(Field::MessageProtocol(self.dump.message_protocol.as_str()));

        let (message_kind, correlation_id) = match self.dump.message_kind {
            MessageKind::Regular => ("Regular", None),
            MessageKind::Request(c) => ("Request", Some(c)),
            MessageKind::Response(c) => ("Response", Some(c)),
        };

        fields.push(Field::MessageKind(message_kind));
        fields.push(Field::Message(&self.dump.message));

        if let Some(correlation_id) = correlation_id {
            fields.push(Field::CorrelationId(correlation_id));
        }

        assert(views(fields@) =~= self.spec_fields(node_no));
        fields
    }
}

// === Laws ===

/// Lines of a file can be sorted: the timestamp is always the first field.
pub proof fn timestamp_is_first(dump: CompactDump<'_>, node_no: Option<NodeNo>)
    ensures
        dump.spec_fields(node_no)[0] == FieldView::Timestamp(dump.dump.timestamp),
{
}

/// No field is written twice.
pub proof fn fields_are_unique(dump: CompactDump<'_>, node_no: Option<NodeNo>, i: int, j: int)
    requires
        0 <= i < j < dump.spec_fields(node_no).len(),
    ensures
        dump.spec_fields(node_no)[i].name() != dump.spec_fields(node_no)[j].name(),
{
    reveal_strlit("ts");
    reveal_strlit("g");
    reveal_strlit("k");
    reveal_strlit("n");
    reveal_strlit("s");
    reveal_strlit("t");
    reveal_strlit("th");
    reveal_strlit("d");
    reveal_strlit("cl");
    reveal_strlit("mn");
    reveal_strlit("mp");
    reveal_strlit("mk");
    reveal_strlit("m");
    reveal_strlit("c");
    let a = dump.spec_fields(node_no)[i].name();
    let b = dump.spec_fields(node_no)[j].name();
    assert(a.len() != b.len() || a[0] != b[0] || a[1] != b[1]);
}

/// A line holds everything that is known about the message, in a fixed order.
///
/// The kind of the message can be restored from the line: the three kinds have
/// different names.
pub proof fn dump_is_written_in_full(
    dump: CompactDump<'_>,
    node_no: Option<NodeNo>,
    fields: Vec<Field<'_>>,
)
    requires
        call_ensures(CompactDump::fields, (&dump, node_no), fields),
    ensures
        ({
            let key = if dump.dump.meta.key@.len() > 0 { 1int } else { 0int };
            let id = if dump.dump.message_kind is Regular { 0int } else { 1int };
            &&& fields@.len() == 12 + key + id
            &&& (fields@[0] matches Field::Timestamp(ts) && ts == dump.dump.timestamp)
            &&& (fields@[1] matches Field::Group(group) && group@ == dump.dump.meta.group@)
            &&& key == 1 ==> (fields@[2] matches Field::Key(text) && text@
                == dump.dump.meta.key@)
            &&& (fields@[2 + key] matches Field::Node(no) && no == node_no)
            &&& (fields@[3 + key] matches Field::SequenceNo(no) && no == dump.dump.sequence_no)
            &&& (fields@[4 + key] matches Field::TraceId(trace_id) && trace_id
                == dump.dump.trace_id)
            &&& (fields@[5 + key] matches Field::ThreadId(no) && no == dump.dump.thread_id)
            &&& (fields@[6 + key] matches Field::Direction(direction) && direction
                == dump.dump.direction)
            &&& (fields@[7 + key] matches Field::Class(class) && class@ == dump.class@)
            &&& (fields@[8 + key] matches Field::MessageName(name) && name@
                == dump.message_name@)
            &&& (fields@[9 + key] matches Field::MessageProtocol(protocol) && protocol@
                == dump.dump.message_protocol@)
            &&& (fields@[10 + key] matches Field::MessageKind(kind) && {
                &&& dump.dump.message_kind is Regular <==> kind@ == "Regular"@
                &&& dump.dump.message_kind is Request <==> kind@ == "Request"@
                &&& dump.dump.message_kind is Response <==> kind@ == "Response"@
            })
            &&& (fields@[11 + key] matches Field::Message(message) && message@
                == dump.dump.message@)
            &&& id == 1 ==> (fields@[12 + key] matches Field::CorrelationId(no) && {
                ||| dump.dump.message_kind == MessageKind::Request(no)
                ||| dump.dump.message_kind == MessageKind::Response(no)
            })
        }),
{
    reveal_strlit("Regular");
    reveal_strlit("Request");
    reveal_strlit("Response");
    assert("Regular"@ != "Request"@) by {
        assert("Regular"@[2] == 'g');
    }
    assert("Request"@.len() != "Response"@.len());
    assert("Regular"@.len() != "Response"@.len());
    assert forall|i: int| 0 <= i < fields@.len() implies (#[trigger] fields@[i])@
        == dump.spec_fields(node_no)[i] by {
        assert(views(fields@)[i] == fields@[i]@);
    }
    assert(views(fields@).len() == fields@.len());
}

/// The hint counts what depends on the message on top of what is always there.
pub proof fn hint_follows_message(
    a: CompactDump<'_>,
    b: CompactDump<'_>,
    count: usize,
    other: usize,
)
    requires
        call_ensures(CompactDump::field_count, (&a,), count),
        call_ensures(CompactDump::field_count, (&b,), other),
    ensures
        a.dump.meta.key@.len() == 0 && a.dump.message_kind is Regular ==> count == 11,
        a.dump.meta.key@.len() > 0 && b.dump.meta.key@.len() == 0 && (a.dump.message_kind is Regular
            <==> b.dump.message_kind is Regular) ==> count == other + 1,
        !(a.dump.message_kind is Regular) && b.dump.message_kind is Regular && (
        a.dump.meta.key@.len() > 0 <==> b.dump.meta.key@.len() > 0) ==> count == other + 1,
{
}

/// How fields are named in a file.
pub proof fn fields_are_named(field: Field<'_>, name: &str)
    requires
        call_ensures(Field::name, (&field,), name),
    ensures
        field is Timestamp ==> name@ == "ts"@,
        field is Group ==> name@ == "g"@,
        field is Key ==> name@ == "k"@,
        field is Node ==> name@ == "n"@,
        field is SequenceNo ==> name@ == "s"@,
        field is TraceId ==> name@ == "t"@,
        field is ThreadId ==> name@ == "th"@,
        field is Direction ==> name@ == "d"@,
        field is Class ==> name@ == "cl"@,
        field is MessageName ==> name@ == "mn"@,
        field is MessageProtocol ==> name@ == "mp"@,
        field is MessageKind ==> name@ == "mk"@,
        field is Message ==> name@ == "m"@,
        field is CorrelationId ==> name@ == "c"@,
{
}

/// A compact dump is about the given dump.
pub proof fn compact_dump_keeps_arguments<'a>(
    dump: &'a Dump,
    class: &'a str,
    message_name: &'a str,
    this: CompactDump<'a>,
)
    requires
        call_ensures(CompactDump::new, (dump, class, message_name), this),
    ensures
        *this.dump == *dump && this.class@ == class@ && this.message_name@ == message_name@,
{
}

} // verus!
