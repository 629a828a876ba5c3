use vstd::prelude::*;

use super::limited_write::{
    all_or_part_is_written, joined, nothing_fits_after_limit, written, LimitedWrite,
};
use super::lookup::VTablesMap;
use super::repr::{MessageTypeId, MessageVTable};
use crate::scope::SerdeMode;

verus! {

/// A message of an unknown type that can be downcasted to a concrete one.
///
/// The message is kept in its encoded form, so it's compact, can be cloned
/// without knowing the type, and is ready to be sent over network.
#[derive(Debug)]
pub struct AnyMessage {
    pub vtable: MessageVTable,
    pub data: Vec<u8>,
}

/// The message doesn't fit into the limit.
#[derive(Debug, Clone, Copy, PartialEq, Eq, Structural)]
pub struct LimitReached;

impl AnyMessage {
    pub open spec fn wf(&self) -> bool {
        self.vtable.wf()
    }

    /// Erases the type of a message.
    pub fn new(vtable: MessageVTable, data: Vec<u8>) -> (this: AnyMessage)
        requires
            vtable.wf(),
        ensures
            this.wf(),
            this.vtable == vtable,
            this.data == data,
    {
        AnyMessage { vtable, data }
    }

    pub fn type_id(&self) -> (id: MessageTypeId)
        ensures
            id == self.vtable.id,
    {
        MessageTypeId::new(&self.vtable)
    }

    pub fn name(&self) -> (name: &str)
        ensures
            name@ == self.vtable.name@,
    {
        self.vtable.name.as_str()
    }

    pub fn protocol(&self) -> (protocol: &str)
        ensures
            protocol@ == self.vtable.protocol@,
    {
        self.vtable.protocol.as_str()
    }

    /// Whether a message with the id `type_id` can hold `self`.
    pub open spec fn spec_is(&self, type_id: MessageTypeId) -> bool {
        type_id == MessageTypeId::spec_any() || type_id == self.vtable.id
    }

    /// Checks if the message is of a specific type.
    ///
    /// Note: it returns `true` for [`MessageTypeId::any`].
    pub fn is(&self, type_id: MessageTypeId) -> (res: bool)
        ensures
            res == self.spec_is(type_id),
    {
        type_id == MessageTypeId::any() || type_id == self.type_id()
    }

    /// Tries to downcast the message to a reference to the data.
    pub fn downcast_ref(&self, type_id: MessageTypeId) -> (res: Option<&Vec<u8>>)
        ensures
            res == (if self.spec_is(type_id) {
                Some(&self.data)
            } else {
                None
            }),
    {
        if self.is(type_id) {
            Some(&self.data)
        } else {
            None
        }
    }

    /// Tries to downcast the message to the data.
    pub fn downcast(self, type_id: MessageTypeId) -> (res: Result<Vec<u8>, AnyMessage>)
        ensures
            res == (if self.spec_is(type_id) {
                Ok::<Vec<u8>, AnyMessage>(self.data)
            } else {
                Err::<Vec<u8>, AnyMessage>(self)
            }),
    {
        if !self.is(type_id) {
            return Err(self);
        }

        Ok(self.data)
    }

    /// Returns a reference to the message.
    pub fn as_ref(&self) -> (res: AnyMessageRef<'_>)
        ensures
            *res.inner == *self,
    {
        AnyMessageRef { inner: self }
    }

    /// Makes a copy of the message.
    pub fn duplicate(&self) -> (copy: AnyMessage)
        ensures
            copy.vtable == self.vtable,
            copy.data@ == self.data@,
    {
        let mut data: Vec<u8> = Vec::new();
        let mut i: usize = 0;
        while i < self.data.len()
            invariant
                i <= self.data.len(),
                data@ == self.data@.take(i as int),
            decreases self.data.len() - i,
        {
            data.push(self.data[i]);
            i += 1;
            assert(self.data@.take(i as int) =~= self.data@.take(i - 1).push(self.data[i - 1]));
        }
        assert(self.data@.take(i as int) =~= self.data@);
        AnyMessage { vtable: self.vtable.duplicate(), data }
    }

    /// Restores a message that is received by the protocol and name. `decoded`
    /// is what decoding of the buffer as a message of this type gives, it's
    /// ignored if there is no such type.
    pub fn read_msgpack<E>(
        vtables: &VTablesMap,
        protocol: &str,
        name: &str,
        decoded: Result<Vec<u8>, E>,
    ) -> (res: Result<Option<AnyMessage>, E>)
        requires
            vtables.wf(),
        ensures
            vtables.spec_get(protocol@, name@) is None ==> res == Ok::<Option<AnyMessage>, E>(None),
            vtables.spec_get(protocol@, name@) matches Some(vtable) ==> match decoded {
                Ok(data) => res == Ok::<Option<AnyMessage>, E>(
                    Some(AnyMessage { vtable, data }),
                ),
                Err(err) => res == Err::<Option<AnyMessage>, E>(err),
            },
    {
        match vtables.get(protocol, name) {
            None => Ok(None),
            Some(vtable) => match decoded {
                Ok(data) => Ok(Some(AnyMessage::new(vtable.duplicate(), data))),
                Err(err) => Err(err),
            },
        }
    }

    /// Writes the message if it fits into `limit`. `pieces` is what an encoder
    /// writes, one by one: it stops at the first piece that doesn't fit, the
    /// previous ones stay.
    pub fn write_msgpack(&self, pieces: &Vec<Vec<u8>>, out: &mut Vec<u8>, limit: usize) -> (res:
        Result<(), LimitReached>)
        requires
            joined(views(pieces@)) == self.data@,
        ensures
            res is Ok <==> self.data@.len() <= limit,
            res is Ok ==> final(out)@ == old(out)@ + self.data@,
            final(out)@ == written(limit as int, old(out)@, views(pieces@)).1,
    {
        let mut writer = LimitedWrite::new(limit);
        let ghost bufs = views(pieces@);
        let mut i: usize = 0;
        assert(bufs.take(0).len() == 0);
        proof {
            all_or_part_is_written(limit as nat, old(out)@, bufs);
        }
        while i < pieces.len()
            invariant
                i <= pieces.len(),
                bufs == views(pieces@),
                joined(bufs) == self.data@,
                written(limit as int, old(out)@, bufs.take(i as int)) == (
                    writer.remaining as int,
                    out@,
                ),
                out@ == old(out)@ + joined(bufs.take(i as int)),
                writer.remaining == limit - joined(bufs.take(i as int)).len(),
                self.data@.len() <= limit ==> written(limit as int, old(out)@, bufs) == (
                    limit - self.data@.len(),
                    old(out)@ + self.data@,
                ),
            decreases pieces.len() - i,
        {
            let ghost before = out@;
            let len: usize = pieces[i].len();
            let is_fit = len <= writer.remaining;
            let _ = writer.write(out, pieces[i].as_slice());
            proof {
                let next = bufs.take(i + 1);
                assert(next.drop_last() =~= bufs.take(i as int));
                assert(next.last() == pieces[i as int]@);
                assert(before + pieces[i as int]@ =~= old(out)@ + joined(next));
                if !is_fit {
                    nothing_fits_after_limit(limit as int, old(out)@, bufs, i + 1);
                    all_or_part_is_written(limit as nat, old(out)@, bufs);
                    lemma_joined_prefix(bufs, i + 1);
                }
            }
            if !is_fit {
                return Err(LimitReached);
            }
            i += 1;
        }
        assert(bufs.take(i as int) =~= bufs);
        Ok(())
    }
}

/// What pieces hold.
pub open spec fn views(pieces: Seq<Vec<u8>>) -> Seq<Seq<u8>> {
    pieces.map_values(|piece: Vec<u8>| piece@)
}

proof fn lemma_joined_prefix(bufs: Seq<Seq<u8>>, i: int)
    requires
        0 <= i <= bufs.len(),
    ensures
        joined(bufs.take(i)).len() <= joined(bufs).len(),
    decreases bufs.len(),
{
    if i == bufs.len() {
        assert(bufs.take(i) =~= bufs);
    } else {
        lemma_joined_prefix(bufs.drop_last(), i);
        assert(bufs.drop_last().take(i) =~= bufs.take(i));
    }
}

// === AnyMessageRef ===

/// A reference to the message inside an envelope or [`AnyMessage`].
#[derive(Debug)]
pub struct AnyMessageRef<'a> {
    pub inner: &'a AnyMessage,
}

impl<'a> AnyMessageRef<'a> {
    pub fn new(inner: &'a AnyMessage) -> (this: AnyMessageRef<'a>)
        ensures
            *this.inner == *inner,
    {
        AnyMessageRef { inner }
    }

    /// Tries to downcast the message to a reference to the data.
    pub fn downcast_ref(&self, type_id: MessageTypeId) -> (res: Option<&'a Vec<u8>>)
        ensures
            res == (if self.inner.spec_is(type_id) {
                Some(&self.inner.data)
            } else {
                None
            }),
    {
        self.inner.downcast_ref(type_id)
    }
}

// === Serialization ===

/// How a message inside another message is serialized.
#[derive(Debug, Clone, Copy, PartialEq, Eq, Structural)]
pub enum Form {
    /// A struct with the `protocol`, `name` and `payload` fields.
    Struct,
    /// A tuple of the protocol, name and payload.
    Tuple,
}

/// Chooses how messages are serialized. Only dumps are verbose.
pub fn form(mode: SerdeMode) -> (form: Form)
    ensures
        form == (if mode == SerdeMode::Dumping {
            Form::Struct
        } else {
            Form::Tuple
        }),
{
    if mode == SerdeMode::Dumping {
        Form::Struct
    } else {
        Form::Tuple
    }
}

/// Why a tuple cannot be deserialized.
#[derive(Debug)]
pub enum TupleError<E> {
    /// There is no element at the position.
    InvalidLength(usize),
    /// There is no such message.
    UnknownMessage,
    /// The payload is invalid.
    Payload(E),
}

impl AnyMessage {
    /// What a tuple means. We don't deserialize dumps.
    pub open spec fn of_tuple<E>(
        vtables: VTablesMap,
        protocol: Option<&str>,
        name: Option<&str>,
        payload: Option<Result<Vec<u8>, E>>,
    ) -> Result<AnyMessage, TupleError<E>> {
        match (protocol, name, payload) {
            (None, _, _) => Err(TupleError::InvalidLength(0)),
            (_, None, _) => Err(TupleError::InvalidLength(1)),
            (_, _, None) => Err(TupleError::InvalidLength(2)),
            (Some(protocol), Some(name), Some(decoded)) => match vtables.spec_get(
                protocol@,
                name@,
            ) {
                None => Err(TupleError::UnknownMessage),
                Some(vtable) => match decoded {
                    Ok(data) => Ok(AnyMessage { vtable, data }),
                    Err(err) => Err(TupleError::Payload(err)),
                },
            },
        }
    }

    /// Restores a message by elements of a tuple, `None`s are for absent ones.
    /// `payload` is what decoding of the last element as a message of this type
    /// gives, it's ignored if there is no such type.
    pub fn from_tuple<E>(
        vtables: &VTablesMap,
        protocol: Option<&str>,
        name: Option<&str>,
        payload: Option<Result<Vec<u8>, E>>,
    ) -> (res: Result<AnyMessage, TupleError<E>>)
        requires
            vtables.wf(),
        ensures
            res == AnyMessage::of_tuple(*vtables, protocol, name, payload),
    {
        let protocol = match protocol {
            Some(protocol) => protocol,
            None => return Err(TupleError::InvalidLength(0)),
        };
        let name = match name {
            Some(name) => name,
            None => return Err(TupleError::InvalidLength(1)),
        };
        let decoded = match payload {
            Some(decoded) => decoded,
            None => return Err(TupleError::InvalidLength(2)),
        };

        match vtables.get(protocol, name) {
            None => Err(TupleError::UnknownMessage),
            Some(vtable) => match decoded {
                Ok(data) => Ok(AnyMessage::new(vtable.duplicate(), data)),
                Err(err) => Err(TupleError::Payload(err)),
            },
        }
    }
}

// === Laws ===

/// A message of a known type is restored from its own protocol, name and
/// payload.
pub proof fn serialization_roundtrip<E>(
    vtables: VTablesMap,
    message: AnyMessage,
    protocol: &str,
    name: &str,
)
    requires
        vtables.spec_get(protocol@, name@) == Some(message.vtable),
    ensures
        AnyMessage::of_tuple::<E>(vtables, Some(protocol), Some(name), Some(Ok(message.data))) == Ok::<
            AnyMessage,
            TupleError<E>,
        >(message),
{
}


/// A message can be downcasted to its own type and to any message only.
pub proof fn downcast_inverts_erasing(vtable: MessageVTable, data: Vec<u8>, type_id: MessageTypeId)
    requires
        vtable.wf(),
    ensures
        ({
            let message = AnyMessage { vtable, data };
            &&& message.spec_is(vtable.id)
            &&& message.spec_is(MessageTypeId::spec_any())
            &&& message.spec_is(type_id) && type_id != MessageTypeId::spec_any() ==> type_id
                == vtable.id
        }),
{
}

/// A message can be downcasted to its own type and to any message, and nothing is
/// lost: either its data or the message itself is returned.
pub proof fn downcast_loses_nothing(
    vtable: MessageVTable,
    data: Vec<u8>,
    type_id: MessageTypeId,
    message: AnyMessage,
    own: MessageTypeId,
    fits: bool,
    by_ref: Option<&Vec<u8>>,
    by_value: Result<Vec<u8>, AnyMessage>,
    reference: AnyMessageRef<'_>,
    by_reference: Option<&Vec<u8>>,
    copy: AnyMessage,
    name: &str,
    protocol: &str,
)
    requires
        call_ensures(AnyMessage::new, (vtable, data), message),
        call_ensures(AnyMessage::type_id, (&message,), own),
        call_ensures(AnyMessage::is, (&message, type_id), fits),
        call_ensures(AnyMessage::downcast_ref, (&message, type_id), by_ref),
        call_ensures(AnyMessage::downcast, (message, type_id), by_value),
        call_ensures(AnyMessage::as_ref, (&message,), reference),
        call_ensures(AnyMessageRef::downcast_ref, (&reference, type_id), by_reference),
        call_ensures(AnyMessage::duplicate, (&message,), copy),
        call_ensures(AnyMessage::name, (&message,), name),
        call_ensures(AnyMessage::protocol, (&message,), protocol),
    ensures
        own == vtable.id,
        fits <==> type_id.raw == 0 || type_id == vtable.id,
        fits ==> by_ref == Some(&data) && by_value == Ok::<Vec<u8>, AnyMessage>(data)
            && by_reference == Some(&data),
        !fits ==> by_ref is None && by_value == Err::<Vec<u8>, AnyMessage>(message)
            && by_reference is None,
        copy.vtable == vtable && copy.data@ == data@,
        name@ == vtable.name@ && protocol@ == vtable.protocol@,
{
}

/// Only dumps are verbose.
pub proof fn only_dumps_are_verbose(mode: SerdeMode, res: Form)
    requires
        call_ensures(form, (mode,), res),
    ensures
        res == Form::Struct <==> mode == SerdeMode::Dumping,
        res == Form::Tuple <==> mode != SerdeMode::Dumping,
{
}

/// What comes of elements of a tuple: the first absent one is reported, then whether
/// there is such a message, and only then whether its payload is valid.
pub proof fn tuples_are_checked_in_order<E>(
    vtables: VTablesMap,
    protocol: &str,
    name: &str,
    payload: Result<Vec<u8>, E>,
    no_protocol: Option<&str>,
    no_payload: Option<Result<Vec<u8>, E>>,
    vtable: Option<&MessageVTable>,
    a: Result<AnyMessage, TupleError<E>>,
    b: Result<AnyMessage, TupleError<E>>,
    c: Result<AnyMessage, TupleError<E>>,
    d: Result<AnyMessage, TupleError<E>>,
    e: Result<Option<AnyMessage>, E>,
)
    requires
        call_ensures(VTablesMap::get, (&vtables, protocol, name), vtable),
        call_ensures(AnyMessage::from_tuple, (&vtables, None, no_protocol, no_payload), a),
        call_ensures(AnyMessage::from_tuple, (&vtables, Some(protocol), None, no_payload), b),
        call_ensures(AnyMessage::from_tuple, (&vtables, Some(protocol), Some(name), None), c),
        call_ensures(
            AnyMessage::from_tuple,
            (&vtables, Some(protocol), Some(name), Some(payload)),
            d,
        ),
        call_ensures(AnyMessage::read_msgpack, (&vtables, protocol, name, payload), e),
    ensures
        a == Err::<AnyMessage, TupleError<E>>(TupleError::InvalidLength(0)),
        b == Err::<AnyMessage, TupleError<E>>(TupleError::InvalidLength(1)),
        c == Err::<AnyMessage, TupleError<E>>(TupleError::InvalidLength(2)),
        vtable is None ==> d == Err::<AnyMessage, TupleError<E>>(TupleError::UnknownMessage) && e
            == Ok::<Option<AnyMessage>, E>(None),
        vtable is Some && payload is Ok ==> {
            &&& d == Ok::<AnyMessage, TupleError<E>>(
                AnyMessage { vtable: *vtable->0, data: payload->Ok_0 },
            )
            &&& e == Ok::<Option<AnyMessage>, E>(
                Some(AnyMessage { vtable: *vtable->0, data: payload->Ok_0 }),
            )
        },
        vtable is Some && payload is Err ==> {
            &&& d == Err::<AnyMessage, TupleError<E>>(TupleError::Payload(payload->Err_0))
            &&& e == Err::<Option<AnyMessage>, E>(payload->Err_0)
        },
{
}

/// A message is written in full if it fits into the limit, otherwise the limit isn't
/// exceeded. What has been there stays in any case.
pub proof fn limit_of_message_is_kept(
    message: AnyMessage,
    pieces: Vec<Vec<u8>>,
    out: &mut Vec<u8>,
    limit: usize,
    res: Result<(), LimitReached>,
)
    requires
        call_ensures(AnyMessage::write_msgpack, (&message, &pieces, out, limit), res),
    ensures
        res is Ok <==> message.data@.len() <= limit,
        res is Ok ==> final(out)@ == old(out)@ + message.data@,
        old(out)@.is_prefix_of(final(out)@),
        final(out)@.len() <= old(out)@.len() + limit,
{
    super::limited_write::limit_is_never_exceeded(limit as nat, old(out)@, views(pieces@));
}

/// A reference is to the given message.
pub proof fn reference_is_to_message<'a>(message: &'a AnyMessage, reference: AnyMessageRef<'a>)
    requires
        call_ensures(AnyMessageRef::new, (message,), reference),
    ensures
        *reference.inner == *message,
{
}

} // verus!
