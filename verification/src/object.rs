//! Delivery of envelopes to objects: actors, groups and remote handles.

use vstd::prelude::*;

use crate::addr::Addr;
use crate::envelope::Envelope;
use crate::errors::{SendError, TrySendError};
use crate::request_table::{RequestTable, Response, ResponseToken};

verus! {

/// What an object is.
#[derive(Debug, Clone, Copy, PartialEq, Eq, Structural, Hash)]
pub enum ObjectKind {
    Actor,
    Group,
    Remote,
}

/// Something that can get envelopes.
#[derive(Debug, Clone, Copy, PartialEq, Eq, Structural)]
pub struct Object {
    pub addr: Addr,
    pub kind: ObjectKind,
}

pub type SendResult = Result<(), SendError<Envelope>>;

/// What is left to do to send an envelope.
#[derive(Debug)]
pub enum SendFut {
    /// Nothing, it's the result.
    Ready(SendResult),
    /// Wait until there is a place in the mailbox of the actor.
    WaitActor(Envelope),
    /// Wait until actors of the group with full mailboxes get the envelope.
    WaitGroup(SendGroupVisitor),
    /// Wait until the remote handle is ready.
    WaitRemote(Envelope),
}

/// What a remote handle answers.
#[derive(Debug)]
pub enum RemoteSendResult {
    Sent,
    Failed(SendError<Envelope>),
    /// Not now, the envelope is returned to try again after a notification.
    Wait(Envelope),
}

/// How an envelope has been sent: to the object itself or, if it's a group, to
/// its actors.
#[derive(Debug)]
pub enum Attempt<V, E> {
    Direct(Result<(), E>),
    Visited(V),
}

impl Object {
    pub fn new(addr: Addr, kind: ObjectKind) -> (this: Object)
        ensures
            this == (Object { addr, kind }),
    {
        Object { addr, kind }
    }

    pub fn addr(&self) -> (addr: Addr)
        ensures
            addr == self.addr,
    {
        self.addr
    }

    /// What is left to do after an attempt to send synchronously. `is_alive` is
    /// whether the object still exists.
    pub open spec fn after_try_send(
        &self,
        attempt: Attempt<SendGroupVisitor, TrySendError<Envelope>>,
        is_alive: bool,
    ) -> SendFut {
        match attempt {
            Attempt::Direct(Ok(_)) => SendFut::Ready(Ok(())),
            Attempt::Direct(Err(TrySendError::Closed(envelope))) => SendFut::Ready(
                Err(SendError(envelope)),
            ),
            Attempt::Direct(Err(TrySendError::Full(envelope))) => if !is_alive {
                SendFut::Ready(Err(SendError(envelope)))
            } else if self.kind is Actor {
                SendFut::WaitActor(envelope)
            } else {
                SendFut::WaitRemote(envelope)
            },
            Attempt::Visited(visitor) => SendFut::WaitGroup(visitor),
        }
    }

    /// Decides how to go on after an attempt to send synchronously. Only if the
    /// object is full, the envelope is sent asynchronously.
    pub fn send(
        &self,
        attempt: Attempt<SendGroupVisitor, TrySendError<Envelope>>,
        is_alive: bool,
    ) -> (res: SendFut)
        requires
            attempt is Visited <==> self.kind is Group,
        ensures
            res == self.after_try_send(attempt, is_alive),
    {
        match attempt {
            Attempt::Direct(Ok(_)) => SendFut::Ready(Ok(())),
            Attempt::Direct(Err(TrySendError::Closed(envelope))) => SendFut::Ready(
                Err(SendError(envelope)),
            ),
            Attempt::Direct(Err(TrySendError::Full(envelope))) => {
                if !is_alive {
                    return SendFut::Ready(Err(SendError(envelope)));
                }
                match self.kind {
                    ObjectKind::Actor => SendFut::WaitActor(envelope),
                    _ => SendFut::WaitRemote(envelope),
                }
            },
            Attempt::Visited(visitor) => SendFut::WaitGroup(visitor),
        }
    }

    /// Decides how to go on after a remote handle has answered.
    pub fn on_remote_send(result: RemoteSendResult) -> (res: SendFut)
        ensures
            res == (match result {
                RemoteSendResult::Sent => SendFut::Ready(Ok(())),
                RemoteSendResult::Failed(err) => SendFut::Ready(Err(err)),
                RemoteSendResult::Wait(envelope) => SendFut::WaitRemote(envelope),
            }),
    {
        match result {
            RemoteSendResult::Sent => SendFut::Ready(Ok(())),
            RemoteSendResult::Failed(err) => SendFut::Ready(Err(err)),
            RemoteSendResult::Wait(envelope) => SendFut::WaitRemote(envelope),
        }
    }

    /// The result of sending without waiting.
    pub fn try_send(&self, attempt: Attempt<TrySendGroupVisitor, TrySendError<Envelope>>) -> (res:
        Result<(), TrySendError<Envelope>>)
        requires
            attempt is Visited <==> self.kind is Group,
            attempt matches Attempt::Visited(visitor) ==> visitor.can_finish(),
        ensures
            match attempt {
                Attempt::Direct(result) => res == result,
                Attempt::Visited(visitor) => res == visitor.result(),
            },
    {
        match attempt {
            Attempt::Direct(result) => result,
            Attempt::Visited(visitor) => visitor.finish(),
        }
    }

    /// The result of sending regardless of the mailbox's capacity.
    pub fn unbounded_send(
        &self,
        attempt: Attempt<UnboundedSendGroupVisitor, SendError<Envelope>>,
    ) -> (res: SendResult)
        requires
            attempt is Visited <==> self.kind is Group,
            attempt matches Attempt::Visited(visitor) ==> visitor.can_finish(),
        ensures
            match attempt {
                Attempt::Direct(result) => res == result,
                Attempt::Visited(visitor) => res == visitor.result(),
            },
    {
        match attempt {
            Attempt::Direct(result) => result,
            Attempt::Visited(visitor) => visitor.finish(),
        }
    }

    /// Responds to a request of the object. Returns `true` if a request of a
    /// local actor becomes done. For remote objects, the response is returned
    /// to be sent over network.
    pub fn respond(&self, table: Option<&mut RequestTable>, token: ResponseToken, response: Response) -> (res:
        Result<bool, (ResponseToken, Response)>)
        requires
            !(self.kind is Group),
            table is Some <==> self.kind is Actor,
            table matches Some(table) ==> table.can_resolve(token, response),
        ensures
            self.kind is Remote ==> res == Err::<bool, (ResponseToken, Response)>((token, response)),
            table matches Some(table) ==> {
                &&& res == Ok::<bool, (ResponseToken, Response)>(
                    table.becomes_done(token, response),
                )
                &&& final(table)@ == table.resolved(token, response)
                &&& final(table).owner() == table.owner()
            },
    {
        match table {
            Some(table) => Ok(table.resolve(token, response)),
            None => Err((token, response)),
        }
    }

    pub fn is_actor(&self) -> (res: bool)
        ensures
            res == (self.kind is Actor),
    {
        match self.kind {
            ObjectKind::Actor => true,
            _ => false,
        }
    }

    pub fn is_remote(&self) -> (res: bool)
        ensures
            res == (self.kind is Remote),
    {
        match self.kind {
            ObjectKind::Remote => true,
            _ => false,
        }
    }
}

// === GroupVisitor ===

/// The visitor of actors inside a group.
/// Possible sequences of calls:
/// * `done()`, if handled by a supervisor
/// * `empty()`, if no relevant actors in a group
/// * `visit_last()`, if only one relevant actor in a group
/// * `visit()`, `visit()`, .., `visit_last()`
///
/// The last two return an envelope that must be sent to the visited actor right
/// away, this ensures that a message starting a new actor is actually the first
/// message that the actor receives.
pub trait GroupVisitor {
    /// Whether nothing has happened yet.
    spec fn is_fresh(&self) -> bool;

    /// The envelope that is returned by an actor.
    spec fn spec_extra(&self) -> Option<Envelope>;

    /// Whether the message is considered as delivered.
    spec fn is_delivered(&self) -> bool;

    fn done(&mut self)
        requires
            old(self).is_fresh(),
        ensures
            final(self).is_delivered(),
            final(self).spec_extra() is None,
    ;

    fn empty(&mut self, envelope: Envelope)
        requires
            old(self).is_fresh(),
        ensures
            !final(self).is_delivered(),
            final(self).spec_extra() == Some(envelope),
    ;

    /// `table` is the request table of the sender.
    fn visit(&mut self, envelope: &Envelope, table: Option<&mut RequestTable>) -> (res: Envelope)
        requires
            old(self).spec_extra() is None ==> can_duplicate(*envelope, table),
        ensures
            final(self).is_delivered() == old(self).is_delivered(),
            final(self).spec_extra() is None,
            match old(self).spec_extra() {
                Some(extra) => {
                    &&& res == extra
                    &&& table matches Some(table) ==> final(table)@ == table@
                },
                None => {
                    &&& envelope.is_duplicate(res)
                    &&& table is None ==> envelope.is_duplicated_alone(res)
                    &&& table matches Some(table) ==> envelope.is_duplicated_in(
                        table@,
                        final(table)@,
                        res,
                    )
                },
            },
            table matches Some(table) ==> final(table).owner() == table.owner(),
    ;

    fn visit_last(&mut self, envelope: Envelope) -> (res: Envelope)
        ensures
            res == envelope,
            final(self).is_delivered() == old(self).is_delivered(),
            final(self).spec_extra() == old(self).spec_extra(),
    ;
}

/// Whether one more response can be expected by the sender.
pub open spec fn can_duplicate(envelope: Envelope, table: Option<&mut RequestTable>) -> bool {
    envelope.spec_token() matches Some(token) ==> token.can_be_duplicated(table)
}

/// Returns the envelope that is not needed anymore or makes a new one.
fn reuse_or_duplicate(
    extra: Option<Envelope>,
    envelope: &Envelope,
    table: Option<&mut RequestTable>,
) -> (res: Envelope)
    requires
        extra is None ==> can_duplicate(*envelope, table),
    ensures
        match extra {
            Some(extra) => {
                &&& res == extra
                &&& table matches Some(table) ==> final(table)@ == table@
            },
            None => {
                &&& envelope.is_duplicate(res)
                &&& table is None ==> envelope.is_duplicated_alone(res)
                &&& table matches Some(table) ==> envelope.is_duplicated_in(
                    table@,
                    final(table)@,
                    res,
                )
            },
        },
        table matches Some(table) ==> final(table).owner() == table.owner(),
{
    match extra {
        Some(extra) => extra,
        None => envelope.duplicate(table),
    }
}

// === SendGroupVisitor ===

/// Actors with full mailboxes, usually there is at most one.
#[verifier::external_body]
#[derive(Debug)]
pub struct FullActors {
    inner: smallvec::SmallVec<[(Addr, Envelope); 1]>,
}

/// What actors a vector holds, from the first to the last.
pub uninterp spec fn full_actors_of(full: FullActors) -> Seq<(Addr, Envelope)>;

/// `SmallVec::new` creates an empty vector.
#[verifier::external_body]
fn full_actors_new() -> (full: FullActors)
    ensures
        full_actors_of(full).len() == 0,
{
    FullActors { inner: smallvec::SmallVec::new() }
}

/// `SmallVec::push` appends an element to the end.
#[verifier::external_body]
fn full_actors_push(full: &mut FullActors, object: Addr, envelope: Envelope)
    ensures
        full_actors_of(*final(full)) == full_actors_of(*old(full)).push((object, envelope)),
{
    full.inner.push((object, envelope))
}

/// `SmallVec::into_vec` moves all elements to a `Vec` in the same order.
#[verifier::external_body]
fn full_actors_into_vec(full: FullActors) -> (vec: Vec<(Addr, Envelope)>)
    ensures
        vec@ == full_actors_of(full),
{
    full.inner.into_vec()
}

/// Waits until the message reaches actors with full mailboxes.
#[derive(Debug)]
pub struct SendGroupVisitor {
    pub extra: Option<Envelope>,
    pub full: FullActors,
    pub has_ok: bool,
}

impl SendGroupVisitor {
    pub fn new() -> (this: SendGroupVisitor)
        ensures
            this.is_fresh(),
    {
        SendGroupVisitor { extra: None, full: full_actors_new(), has_ok: false }
    }

    /// Remembers the result of sending to a visited actor.
    pub fn try_send(&mut self, object: Addr, result: Result<(), TrySendError<Envelope>>)
        ensures
            final(self).has_ok == (old(self).has_ok || result is Ok),
            final(self).extra == (match result {
                Err(TrySendError::Closed(envelope)) => Some(envelope),
                _ => old(self).extra,
            }),
            full_actors_of(final(self).full) == (match result {
                Err(TrySendError::Full(envelope)) => full_actors_of(old(self).full).push(
                    (object, envelope),
                ),
                _ => full_actors_of(old(self).full),
            }),
    {
        match result {
            Ok(_) => self.has_ok = true,
            Err(TrySendError::Full(envelope)) => {
                full_actors_push(&mut self.full, object, envelope);
            },
            Err(TrySendError::Closed(envelope)) => {
                self.extra = Some(envelope);
            },
        }
    }

    /// Takes actors to wait for out.
    pub fn take_full(&mut self) -> (full: Vec<(Addr, Envelope)>)
        ensures
            full@ == full_actors_of(old(self).full),
            full_actors_of(final(self).full).len() == 0,
            final(self).extra == old(self).extra,
            final(self).has_ok == old(self).has_ok,
    {
        let mut full = full_actors_new();
        std::mem::swap(&mut self.full, &mut full);
        full_actors_into_vec(full)
    }

    /// The result of sending to the whole group: it's successful if at least
    /// one actor has got the message, otherwise the message is returned.
    pub open spec fn result(&self, results: Seq<SendResult>) -> SendResult {
        if self.has_ok || has_ok(results) {
            Ok(())
        } else if results.len() > 0 {
            results.last()
        } else {
            Err(SendError(self.extra->0))
        }
    }

    /// Concludes once all actors with full mailboxes have been waited for.
    pub fn finish(self, results: Vec<SendResult>) -> (res: SendResult)
        requires
            full_actors_of(self.full).len() == 0,
            self.has_ok || self.extra is Some || results.len() > 0,
        ensures
            res == self.result(results@),
    {
        let mut this_ok: bool = self.has_ok;
        let mut extra: Option<Envelope> = self.extra;
        let ghost all = results@;
        assert(all.take(0).len() == 0);
        for result in iter: results
            invariant
                iter.seq() == all,
                this_ok == (self.has_ok || has_ok(all.take(iter.index()))),
                !this_ok ==> extra == (if iter.index() > 0 {
                    Some(all[iter.index() - 1]->Err_0.0)
                } else {
                    self.extra
                }),
        {
            let ghost i = iter.index();
            proof {
                lemma_has_ok_step(all, i);
            }
            match result {
                Ok(_) => this_ok = true,
                Err(err) => {
                    if !this_ok {
                        extra = Some(err.0);
                    }
                },
            }
        }
        assert(all.take(all.len() as int) =~= all);
        proof {
            if !has_ok(all) && all.len() > 0 {
                assert(all[all.len() - 1] == all.last());
            }
        }

        if this_ok {
            Ok(())
        } else {
            Err(SendError(extra.unwrap()))
        }
    }
}

/// Whether there is a successful result.
pub open spec fn has_ok<E>(results: Seq<Result<(), E>>) -> bool {
    exists|i: int| 0 <= i < results.len() && (#[trigger] results[i]) is Ok
}

proof fn lemma_has_ok_step<E>(results: Seq<Result<(), E>>, i: int)
    requires
        0 <= i < results.len(),
    ensures
        has_ok(results.take(i + 1)) == (has_ok(results.take(i)) || results[i] is Ok),
{
    let a = results.take(i);
    let b = results.take(i + 1);
    if has_ok(a) {
        let k = choose|k: int| 0 <= k < a.len() && (#[trigger] a[k]) is Ok;
        assert(b[k] is Ok);
    }
    if results[i] is Ok {
        assert(b[i] is Ok);
    }
    if has_ok(b) {
        let k = choose|k: int| 0 <= k < b.len() && (#[trigger] b[k]) is Ok;
        if k < i {
            assert(a[k] is Ok);
        }
    }
}

impl GroupVisitor for SendGroupVisitor {
    open spec fn is_fresh(&self) -> bool {
        &&& full_actors_of(self.full).len() == 0
        &&& self.extra is None
        &&& !self.has_ok
    }

    open spec fn spec_extra(&self) -> Option<Envelope> {
        self.extra
    }

    open spec fn is_delivered(&self) -> bool {
        self.has_ok
    }

    fn done(&mut self)
        ensures
            full_actors_of(final(self).full).len() == 0,
    {
        self.has_ok = true;
    }

    fn empty(&mut self, envelope: Envelope)
        ensures
            full_actors_of(final(self).full).len() == 0,
    {
        self.extra = Some(envelope);
    }

    fn visit(&mut self, envelope: &Envelope, table: Option<&mut RequestTable>) -> (res: Envelope)
        ensures
            final(self).full == old(self).full,
    {
        reuse_or_duplicate(self.extra.take(), envelope, table)
    }

    fn visit_last(&mut self, envelope: Envelope) -> (res: Envelope)
        ensures
            final(self).full == old(self).full,
    {
        envelope
    }
}

// === TrySendGroupVisitor ===

/// Never waits.
#[derive(Debug)]
pub struct TrySendGroupVisitor {
    pub extra: Option<Envelope>,
    pub has_ok: bool,
    pub has_full: bool,
}

impl TrySendGroupVisitor {
    pub fn new() -> (this: TrySendGroupVisitor)
        ensures
            this.is_fresh(),
            !this.has_full,
    {
        TrySendGroupVisitor { extra: None, has_ok: false, has_full: false }
    }

    /// The state after a visited actor has answered.
    pub open spec fn after(self, result: Result<(), TrySendError<Envelope>>) -> TrySendGroupVisitor {
        match result {
            Ok(_) => TrySendGroupVisitor { has_ok: true, ..self },
            Err(err) => TrySendGroupVisitor {
                extra: Some(err.inner()),
                has_full: self.has_full || err is Full,
                ..self
            },
        }
    }

    /// Remembers the result of sending to a visited actor.
    pub fn try_send(&mut self, result: Result<(), TrySendError<Envelope>>)
        ensures
            *final(self) == old(self).after(result),
    {
        match result {
            Ok(_) => self.has_ok = true,
            Err(err) => {
                if err.is_full() {
                    self.has_full = true;
                }
                self.extra = Some(err.into_inner());
            },
        }
    }

    pub open spec fn can_finish(&self) -> bool {
        self.has_ok || self.extra is Some
    }

    /// The result of sending to the whole group: it's successful if at least
    /// one actor has got the message, otherwise the message is returned. It's
    /// worth trying again if at least one actor is full.
    pub open spec fn result(&self) -> Result<(), TrySendError<Envelope>> {
        if self.has_ok {
            Ok(())
        } else if self.has_full {
            Err(TrySendError::Full(self.extra->0))
        } else {
            Err(TrySendError::Closed(self.extra->0))
        }
    }

    pub fn finish(self) -> (res: Result<(), TrySendError<Envelope>>)
        requires
            self.can_finish(),
        ensures
            res == self.result(),
    {
        if self.has_ok {
            return Ok(());
        }
        let envelope = self.extra.unwrap();
        Err(
            if self.has_full {
                TrySendError::Full(envelope)
            } else {
                TrySendError::Closed(envelope)
            },
        )
    }
}

impl GroupVisitor for TrySendGroupVisitor {
    open spec fn is_fresh(&self) -> bool {
        self.extra is None && !self.has_ok
    }

    open spec fn spec_extra(&self) -> Option<Envelope> {
        self.extra
    }

    open spec fn is_delivered(&self) -> bool {
        self.has_ok
    }

    fn done(&mut self)
        ensures
            final(self).has_full == old(self).has_full,
    {
        self.has_ok = true;
    }

    fn empty(&mut self, envelope: Envelope)
        ensures
            final(self).has_full == old(self).has_full,
    {
        self.extra = Some(envelope);
    }

    fn visit(&mut self, envelope: &Envelope, table: Option<&mut RequestTable>) -> (res: Envelope)
        ensures
            final(self).has_full == old(self).has_full,
    {
        reuse_or_duplicate(self.extra.take(), envelope, table)
    }

    fn visit_last(&mut self, envelope: Envelope) -> (res: Envelope)
        ensures
            final(self).has_full == old(self).has_full,
    {
        envelope
    }
}

// === UnboundedSendGroupVisitor ===

/// Ignores capacities of mailboxes.
#[derive(Debug)]
pub struct UnboundedSendGroupVisitor {
    pub extra: Option<Envelope>,
    pub has_ok: bool,
}

impl UnboundedSendGroupVisitor {
    pub fn new() -> (this: UnboundedSendGroupVisitor)
        ensures
            this.is_fresh(),
    {
        UnboundedSendGroupVisitor { extra: None, has_ok: false }
    }

    /// The state after a visited actor has answered.
    pub open spec fn after(self, result: SendResult) -> UnboundedSendGroupVisitor {
        match result {
            Ok(_) => UnboundedSendGroupVisitor { has_ok: true, ..self },
            Err(err) => UnboundedSendGroupVisitor { extra: Some(err.0), ..self },
        }
    }

    /// Remembers the result of sending to a visited actor.
    pub fn try_send(&mut self, result: SendResult)
        ensures
            *final(self) == old(self).after(result),
    {
        match result {
            Ok(_) => self.has_ok = true,
            Err(err) => self.extra = Some(err.0),
        }
    }

    pub open spec fn can_finish(&self) -> bool {
        self.has_ok || self.extra is Some
    }

    /// The result of sending to the whole group: it's successful if at least
    /// one actor has got the message, otherwise the message is returned.
    pub open spec fn result(&self) -> SendResult {
        if self.has_ok {
            Ok(())
        } else {
            Err(SendError(self.extra->0))
        }
    }

    pub fn finish(self) -> (res: SendResult)
        requires
            self.can_finish(),
        ensures
            res == self.result(),
    {
        if self.has_ok {
            Ok(())
        } else {
            Err(SendError(self.extra.unwrap()))
        }
    }
}

impl GroupVisitor for UnboundedSendGroupVisitor {
    open spec fn is_fresh(&self) -> bool {
        self.extra is None && !self.has_ok
    }

    open spec fn spec_extra(&self) -> Option<Envelope> {
        self.extra
    }

    open spec fn is_delivered(&self) -> bool {
        self.has_ok
    }

    fn done(&mut self) {
        self.has_ok = true;
    }

    fn empty(&mut self, envelope: Envelope) {
        self.extra = Some(envelope);
    }

    fn visit(&mut self, envelope: &Envelope, table: Option<&mut RequestTable>) -> (res: Envelope) {
        reuse_or_duplicate(self.extra.take(), envelope, table)
    }

    fn visit_last(&mut self, envelope: Envelope) -> (res: Envelope) {
        envelope
    }
}

// === Laws ===

/// Whether an actor has answered that it's full.
pub open spec fn is_full_error(result: Result<(), TrySendError<Envelope>>) -> bool {
    result matches Err(err) && err is Full
}

/// The state after all visited actors have answered.
pub open spec fn after_all(
    visitor: TrySendGroupVisitor,
    results: Seq<Result<(), TrySendError<Envelope>>>,
) -> TrySendGroupVisitor
    decreases results.len(),
{
    if results.len() == 0 {
        visitor
    } else {
        after_all(visitor, results.drop_last()).after(results.last())
    }
}

/// Sending to a group without waiting is successful if and only if at least one
/// actor has got the message. Otherwise, the sender is told to try again if and
/// only if at least one actor is full.
pub proof fn try_send_succeeds_iff_somebody_gets(
    visitor: TrySendGroupVisitor,
    results: Seq<Result<(), TrySendError<Envelope>>>,
)
    requires
        visitor.is_fresh(),
        !visitor.has_full,
        results.len() > 0,
    ensures
        ({
            let after = after_all(visitor, results);
            &&& after.can_finish()
            &&& after.result() is Ok <==> has_ok(results)
            &&& after.has_full <==> exists|i: int|
                0 <= i < results.len() && is_full_error(#[trigger] results[i])
        }),
    decreases results.len(),
{
    let rest = results.drop_last();
    let last = results.last();
    assert(results.take(results.len() - 1) =~= rest);
    assert(results.take(results.len() as int) =~= results);
    lemma_has_ok_step(results, results.len() - 1);
    if rest.len() > 0 {
        try_send_succeeds_iff_somebody_gets(visitor, rest);
        let after = after_all(visitor, rest);
        if after.has_full {
            let i = choose|i: int|
                0 <= i < rest.len() && is_full_error(#[trigger] rest[i]);
            assert(results[i] == rest[i]);
        }
    } else {
        assert(after_all(visitor, rest) == visitor);
        assert(!has_ok(rest));
    }
    if after_all(visitor, results).has_full && is_full_error(last) {
        assert(results[results.len() - 1] == last);
    }
    if exists|i: int|
        0 <= i < results.len() && is_full_error(#[trigger] results[i]) {
        let i = choose|i: int|
            0 <= i < results.len() && is_full_error(#[trigger] results[i]);
        if i < rest.len() {
            assert(rest[i] == results[i]);
        }
    }
}

/// An object is what it's made of.
pub proof fn objects_are_told_apart(
    addr: Addr,
    kind: ObjectKind,
    object: Object,
    a: Addr,
    b: bool,
    c: bool,
)
    requires
        call_ensures(Object::new, (addr, kind), object),
        call_ensures(Object::addr, (&object,), a),
        call_ensures(Object::is_actor, (&object,), b),
        call_ensures(Object::is_remote, (&object,), c),
    ensures
        object.kind == kind && a == addr,
        b <==> kind == ObjectKind::Actor,
        c <==> kind == ObjectKind::Remote,
{
}

/// The sender waits only for an object that is full and still exists, in other cases the
/// result is known at once. The envelope is never lost.
pub proof fn sender_waits_for_full_objects(
    object: Object,
    result: Result<(), TrySendError<Envelope>>,
    visitor: SendGroupVisitor,
    is_alive: bool,
    direct: SendFut,
    visited: SendFut,
)
    requires
        call_ensures(Object::send, (&object, Attempt::Direct(result), is_alive), direct),
        call_ensures(Object::send, (&object, Attempt::Visited(visitor), is_alive), visited),
    ensures
        result is Ok ==> direct == SendFut::Ready(Ok(())),
        result matches Err(TrySendError::Closed(envelope)) ==> direct == SendFut::Ready(
            Err(SendError(envelope)),
        ),
        result matches Err(TrySendError::Full(envelope)) ==> {
            &&& !is_alive ==> direct == SendFut::Ready(Err(SendError(envelope)))
            &&& is_alive && object.kind is Actor ==> direct == SendFut::WaitActor(envelope)
            &&& is_alive && object.kind is Remote ==> direct == SendFut::WaitRemote(envelope)
        },
        visited == SendFut::WaitGroup(visitor),
{
}

/// A remote handle is waited for only if it asks to.
pub proof fn remote_handle_can_be_waited_for(
    envelope: Envelope,
    sent: SendFut,
    failed: SendFut,
    wait: SendFut,
)
    requires
        call_ensures(Object::on_remote_send, (RemoteSendResult::Sent,), sent),
        call_ensures(
            Object::on_remote_send,
            (RemoteSendResult::Failed(SendError(envelope)),),
            failed,
        ),
        call_ensures(Object::on_remote_send, (RemoteSendResult::Wait(envelope),), wait),
    ensures
        sent == SendFut::Ready(Ok(())),
        failed == SendFut::Ready(Err(SendError(envelope))),
        wait == SendFut::WaitRemote(envelope),
{
}

/// The result of an object is the result of sending, the result of a group is what its
/// visitor concludes.
pub proof fn results_are_passed_on(
    object: Object,
    result: Result<(), TrySendError<Envelope>>,
    visitor: TrySendGroupVisitor,
    conclusion: Result<(), TrySendError<Envelope>>,
    a: Result<(), TrySendError<Envelope>>,
    b: Result<(), TrySendError<Envelope>>,
    unbounded: SendResult,
    unbounded_visitor: UnboundedSendGroupVisitor,
    unbounded_conclusion: SendResult,
    c: SendResult,
    d: SendResult,
)
    requires
        call_ensures(Object::try_send, (&object, Attempt::Direct(result)), a),
        call_ensures(Object::try_send, (&object, Attempt::Visited(visitor)), b),
        call_ensures(TrySendGroupVisitor::finish, (visitor,), conclusion),
        call_ensures(Object::unbounded_send, (&object, Attempt::Direct(unbounded)), c),
        call_ensures(Object::unbounded_send, (&object, Attempt::Visited(unbounded_visitor)), d),
        call_ensures(
            UnboundedSendGroupVisitor::finish,
            (unbounded_visitor,),
            unbounded_conclusion,
        ),
    ensures
        a == result && b == conclusion,
        c == unbounded && d == unbounded_conclusion,
{
}

/// A response to a local actor resolves its request, a response to a remote one is given
/// back to be sent over network.
pub proof fn responses_reach_requests(
    actor: Object,
    remote: Object,
    a: &mut RequestTable,
    b: &mut RequestTable,
    token: ResponseToken,
    response: Response,
    by_actor: Result<bool, (ResponseToken, Response)>,
    by_table: bool,
    by_remote: Result<bool, (ResponseToken, Response)>,
)
    requires
        actor.kind is Actor,
        remote.kind is Remote,
        *old(a) == *old(b),
        call_ensures(Object::respond, (&actor, Some(a), token, response), by_actor),
        call_ensures(RequestTable::resolve, (b, token, response), by_table),
        call_ensures(Object::respond, (&remote, None, token, response), by_remote),
    ensures
        by_actor is Ok && by_actor->Ok_0 == by_table,
        final(a)@ == final(b)@ && final(a).owner() == final(b).owner(),
        by_remote == Err::<bool, (ResponseToken, Response)>((token, response)),
{
}

/// What is remembered about each visited actor: those who are full wait in order, and an
/// envelope that is returned can be reused.
pub proof fn visited_actors_are_remembered(
    fresh: SendGroupVisitor,
    visitor: &mut SendGroupVisitor,
    taking: &mut SendGroupVisitor,
    object: Addr,
    result: Result<(), TrySendError<Envelope>>,
    full: Vec<(Addr, Envelope)>,
)
    requires
        call_ensures(SendGroupVisitor::new, (), fresh),
        call_ensures(SendGroupVisitor::try_send, (visitor, object, result), ()),
        *old(taking) == *final(visitor),
        call_ensures(SendGroupVisitor::take_full, (taking,), full),
    ensures
        !fresh.has_ok && fresh.extra is None && full_actors_of(fresh.full).len() == 0,
        final(visitor).has_ok <==> old(visitor).has_ok || result is Ok,
        result is Ok ==> final(visitor).extra == old(visitor).extra,
        result matches Err(TrySendError::Closed(envelope)) ==> final(visitor).extra == Some(
            envelope,
        ) && full@ == full_actors_of(old(visitor).full),
        result matches Err(TrySendError::Full(envelope)) ==> {
            &&& full@ == full_actors_of(old(visitor).full).push((object, envelope))
            &&& final(visitor).extra == old(visitor).extra
        },
        full_actors_of(final(taking).full).len() == 0,
        final(taking).has_ok == final(visitor).has_ok,
        final(taking).extra == final(visitor).extra,
{
}

/// Sending with waiting is successful iff at least one actor has got the message, at once
/// or later. Otherwise the message is returned.
pub proof fn waiting_succeeds_iff_somebody_gets(
    visitor: SendGroupVisitor,
    results: Vec<SendResult>,
    res: SendResult,
    i: int,
)
    requires
        call_ensures(SendGroupVisitor::finish, (visitor, results), res),
    ensures
        visitor.has_ok ==> res is Ok,
        0 <= i < results@.len() && results@[i] is Ok ==> res is Ok,
        !visitor.has_ok && (forall|k: int|
            0 <= k < results@.len() ==> (#[trigger] results@[k]) is Err) ==> {
            &&& res is Err
            &&& results@.len() > 0 ==> res == results@.last()
            &&& results@.len() == 0 && visitor.extra is Some ==> (res->Err_0).0 == visitor.extra->0
        },
{
    if 0 <= i < results@.len() && results@[i] is Ok {
        assert(has_ok(results@));
    }
    if results@.len() > 0 {
        assert(results@.last() == results@[results@.len() - 1]);
    }
}

/// How each visited actor changes the result of sending without waiting. One that gets
/// the message makes it successful for good. If nobody gets it, it's worth trying again
/// once somebody is full. The last returned envelope is given back.
pub proof fn every_actor_affects_result(
    fresh: TrySendGroupVisitor,
    visitor: &mut TrySendGroupVisitor,
    result: Result<(), TrySendError<Envelope>>,
    before: Result<(), TrySendError<Envelope>>,
    after: Result<(), TrySendError<Envelope>>,
    unbounded_fresh: UnboundedSendGroupVisitor,
    unbounded: &mut UnboundedSendGroupVisitor,
    sent: SendResult,
    unbounded_before: SendResult,
    unbounded_after: SendResult,
)
    requires
        call_ensures(TrySendGroupVisitor::new, (), fresh),
        call_ensures(TrySendGroupVisitor::try_send, (visitor, result), ()),
        call_ensures(TrySendGroupVisitor::finish, (*old(visitor),), before),
        call_ensures(TrySendGroupVisitor::finish, (*final(visitor),), after),
        call_ensures(UnboundedSendGroupVisitor::new, (), unbounded_fresh),
        call_ensures(UnboundedSendGroupVisitor::try_send, (unbounded, sent), ()),
        call_ensures(UnboundedSendGroupVisitor::finish, (*old(unbounded),), unbounded_before),
        call_ensures(UnboundedSendGroupVisitor::finish, (*final(unbounded),), unbounded_after),
    ensures
        fresh.extra is None && !fresh.has_ok && !fresh.has_full,
        before is Ok || result is Ok ==> after is Ok,
        before is Err ==> (result matches Err(TrySendError::Full(envelope)) ==> after == Err::<
            (),
            TrySendError<Envelope>,
        >(TrySendError::Full(envelope))),
        before is Err ==> (result matches Err(TrySendError::Closed(envelope)) ==> after == Err::<
            (),
            TrySendError<Envelope>,
        >(
            if old(visitor).has_full {
                TrySendError::Full(envelope)
            } else {
                TrySendError::Closed(envelope)
            },
        )),
        final(visitor).has_full <==> old(visitor).has_full || is_full_error(result),
        unbounded_fresh.extra is None && !unbounded_fresh.has_ok,
        unbounded_before is Ok || sent is Ok ==> unbounded_after is Ok,
        unbounded_before is Err && sent is Err ==> unbounded_after == sent,
{
}

/// A message that is handled by a supervisor itself is delivered, and a message that
/// nobody wants is returned.
pub proof fn supervisor_concludes(
    a: &mut TrySendGroupVisitor,
    b: &mut TrySendGroupVisitor,
    c: &mut UnboundedSendGroupVisitor,
    d: &mut UnboundedSendGroupVisitor,
    e: &mut SendGroupVisitor,
    f: &mut SendGroupVisitor,
    envelope: Envelope,
    nobody: Vec<SendResult>,
    v: Result<(), TrySendError<Envelope>>,
    w: Result<(), TrySendError<Envelope>>,
    x: SendResult,
    y: SendResult,
    s: SendResult,
    t: SendResult,
)
    requires
        nobody@.len() == 0,
        call_ensures(TrySendGroupVisitor::new, (), *old(a)),
        *old(b) == *old(a),
        call_ensures(UnboundedSendGroupVisitor::new, (), *old(c)),
        *old(d) == *old(c),
        call_ensures(SendGroupVisitor::new, (), *old(e)),
        *old(f) == *old(e),
        call_ensures(<TrySendGroupVisitor as GroupVisitor>::done, (a,), ()),
        call_ensures(<TrySendGroupVisitor as GroupVisitor>::empty, (b, envelope), ()),
        call_ensures(<UnboundedSendGroupVisitor as GroupVisitor>::done, (c,), ()),
        call_ensures(<UnboundedSendGroupVisitor as GroupVisitor>::empty, (d, envelope), ()),
        call_ensures(<SendGroupVisitor as GroupVisitor>::done, (e,), ()),
        call_ensures(<SendGroupVisitor as GroupVisitor>::empty, (f, envelope), ()),
        call_ensures(TrySendGroupVisitor::finish, (*final(a),), v),
        call_ensures(TrySendGroupVisitor::finish, (*final(b),), w),
        call_ensures(UnboundedSendGroupVisitor::finish, (*final(c),), x),
        call_ensures(UnboundedSendGroupVisitor::finish, (*final(d),), y),
        call_ensures(SendGroupVisitor::finish, (*final(e), nobody), s),
        call_ensures(SendGroupVisitor::finish, (*final(f), nobody), t),
    ensures
        v is Ok && x is Ok && s is Ok,
        w == Err::<(), TrySendError<Envelope>>(TrySendError::Closed(envelope)),
        y == Err::<(), SendError<Envelope>>(SendError(envelope)),
        t == Err::<(), SendError<Envelope>>(SendError(envelope)),
{
}

/// Every visited actor gets the message: the envelope that another one has returned, or
/// a copy. The last one gets the envelope itself.
pub proof fn every_actor_gets_message(
    a: &mut TrySendGroupVisitor,
    b: &mut TrySendGroupVisitor,
    envelope: Envelope,
    visited: Envelope,
    last: Envelope,
)
    requires
        call_ensures(<TrySendGroupVisitor as GroupVisitor>::visit, (a, &envelope, None), visited),
        call_ensures(<TrySendGroupVisitor as GroupVisitor>::visit_last, (b, envelope), last),
    ensures
        old(a).extra is Some ==> visited == old(a).extra->0,
        old(a).extra is None ==> {
            &&& visited.trace_id == envelope.trace_id
            &&& visited.message.vtable == envelope.message.vtable
            &&& visited.message.data@ == envelope.message.data@
        },
        final(a).extra is None,
        last == envelope,
        final(a).has_ok == old(a).has_ok && final(b).has_ok == old(b).has_ok,
        final(a).has_full == old(a).has_full && final(b).has_full == old(b).has_full,
{
}

/// Envelopes are handed out in the same way however they are sent.
pub proof fn envelopes_are_handed_out(
    a: &mut SendGroupVisitor,
    b: &mut SendGroupVisitor,
    c: &mut UnboundedSendGroupVisitor,
    d: &mut UnboundedSendGroupVisitor,
    envelope: Envelope,
    visited: Envelope,
    last: Envelope,
    unbounded_visited: Envelope,
    unbounded_last: Envelope,
)
    requires
        call_ensures(<SendGroupVisitor as GroupVisitor>::visit, (a, &envelope, None), visited),
        call_ensures(<SendGroupVisitor as GroupVisitor>::visit_last, (b, envelope), last),
        call_ensures(
            <UnboundedSendGroupVisitor as GroupVisitor>::visit,
            (c, &envelope, None),
            unbounded_visited,
        ),
        call_ensures(
            <UnboundedSendGroupVisitor as GroupVisitor>::visit_last,
            (d, envelope),
            unbounded_last,
        ),
    ensures
        old(a).extra is Some ==> visited == old(a).extra->0,
        old(a).extra is None ==> visited.message.data@ == envelope.message.data@
            && visited.trace_id == envelope.trace_id,
        old(c).extra is Some ==> unbounded_visited == old(c).extra->0,
        old(c).extra is None ==> unbounded_visited.message.data@ == envelope.message.data@
            && unbounded_visited.trace_id == envelope.trace_id,
        final(a).extra is None && final(c).extra is None,
        last == envelope && unbounded_last == envelope,
        final(a).full == old(a).full && final(b).full == old(b).full,
        final(a).has_ok == old(a).has_ok && final(c).has_ok == old(c).has_ok,
{
}

/// A handled message is delivered at once: nothing is given back, nobody is waited for.
pub proof fn handled_message_is_done(
    a: &mut SendGroupVisitor,
    b: &mut UnboundedSendGroupVisitor,
    c: &mut TrySendGroupVisitor,
)
    requires
        call_ensures(SendGroupVisitor::new, (), *old(a)),
        call_ensures(UnboundedSendGroupVisitor::new, (), *old(b)),
        call_ensures(TrySendGroupVisitor::new, (), *old(c)),
        call_ensures(<SendGroupVisitor as GroupVisitor>::done, (a,), ()),
        call_ensures(<UnboundedSendGroupVisitor as GroupVisitor>::done, (b,), ()),
        call_ensures(<TrySendGroupVisitor as GroupVisitor>::done, (c,), ()),
    ensures
        final(a).has_ok && final(a).extra is None && full_actors_of(final(a).full).len() == 0,
        final(b).has_ok && final(b).extra is None,
        final(c).has_ok && final(c).extra is None && final(c).has_full == old(c).has_full,
{
}

} // verus!
