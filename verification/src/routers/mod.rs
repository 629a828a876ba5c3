//! Routing of messages inside a group.

use vstd::prelude::*;

use crate::envelope::Envelope;
use crate::messages::{classify, spec_classify, SystemMessage};

pub mod map;

pub use self::map::MapRouter;

verus! {

/// Decides which actors get a message.
pub trait Router<C> {
    type Key;

    /// Whether the config is accepted.
    spec fn can_update(&self, config: &C) -> bool;

    /// Whether the envelope is accepted.
    spec fn can_route(&self, envelope: &Envelope) -> bool;

    /// Whether `after` is a router that has got the config.
    spec fn is_updated(&self, config: &C, after: &Self) -> bool;

    /// Whether the outcome is a decision on the envelope.
    spec fn routes(&self, envelope: &Envelope, outcome: Outcome<Self::Key>) -> bool;

    /// Called each time the config of a group is updated.
    fn update(&mut self, config: &C)
        requires
            old(self).can_update(config),
        ensures
            old(self).is_updated(config, &*final(self)),
    ;

    fn route(&self, envelope: &Envelope) -> (outcome: Outcome<Self::Key>)
        requires
            self.can_route(envelope),
        ensures
            self.routes(envelope, outcome),
    ;
}

/// Specifies which actors will get a message.
#[derive(Debug)]
pub enum Outcome<T> {
    /// Routes a message to an actor with the specified key.
    /// If there is no active or restarting actor for this key,
    /// it will be started.
    Unicast(T),
    /// Routes a message to an actor with the specified key.
    /// If there is no active or restarting actor for this key,
    /// the message will be discarded, no actors are started.
    GentleUnicast(T),
    /// Routes a message to all actors with specified keys.
    /// If there is no active or restarting actors for these keys,
    /// they will be started.
    Multicast(Vec<T>),
    /// Routes a message to all actors with specified keys.
    /// If there is no active or restarting actors for these keys,
    /// the message will be descarded, no actors are started.
    GentleMulticast(Vec<T>),
    /// Routes a message to all active actors.
    Broadcast,
    /// Discards a message.
    /// If a message is discarded by everyone, the sending side gets an error.
    Discard,
    /// Route message using default behaviour.
    /// This behaviour depends on the message type:
    /// - `ValidateConfig` is routed as `Discard`
    /// - All other system messages are routed as `Broadcast`
    /// - All non-system messages are routed as `Discard`
    Default,
}

/// Whether `to` is what `f` makes of every key.
pub open spec fn is_mapped<T, U, F: Fn(T) -> U>(f: F, from: Seq<T>, to: Seq<U>) -> bool {
    &&& from.len() == to.len()
    &&& forall|i: int|
        0 <= i < from.len() ==> call_ensures(f, (#[trigger] from[i],), #[trigger] to[i])
}

impl<T> Outcome<T> {
    /// All keys that are mentioned.
    pub open spec fn keys(self) -> Seq<T> {
        match self {
            Outcome::Unicast(key) => seq![key],
            Outcome::GentleUnicast(key) => seq![key],
            Outcome::Multicast(list) => list@,
            Outcome::GentleMulticast(list) => list@,
            _ => Seq::empty(),
        }
    }

    /// Transforms keys.
    pub fn map<U, F: Fn(T) -> U>(self, f: F) -> (res: Outcome<U>)
        requires
            forall|i: int|
                0 <= i < self.keys().len() ==> call_requires(f, (#[trigger] self.keys()[i],)),
        ensures
            match self {
                Outcome::Unicast(key) => res matches Outcome::Unicast(new) && call_ensures(
                    f,
                    (key,),
                    new,
                ),
                Outcome::GentleUnicast(key) => res matches Outcome::GentleUnicast(new)
                    && call_ensures(f, (key,), new),
                Outcome::Multicast(list) => res matches Outcome::Multicast(new) && is_mapped(
                    f,
                    list@,
                    new@,
                ),
                Outcome::GentleMulticast(list) => res matches Outcome::GentleMulticast(new)
                    && is_mapped(f, list@, new@),
                Outcome::Broadcast => res is Broadcast,
                Outcome::Discard => res is Discard,
                Outcome::Default => res is Default,
            },
    {
        let ghost keys = self.keys();
        match self {
            Outcome::Unicast(val) => {
                assert(keys[0] == val);
                Outcome::Unicast(f(val))
            },
            Outcome::GentleUnicast(val) => {
                assert(keys[0] == val);
                Outcome::GentleUnicast(f(val))
            },
            Outcome::Multicast(list) => {
                assert forall|i: int| 0 <= i < list.len() implies call_requires(
                    f,
                    (#[trigger] list[i],),
                ) by {
                    assert(keys[i] == list[i]);
                }
                Outcome::Multicast(map_list(list, f))
            },
            Outcome::GentleMulticast(list) => {
                assert forall|i: int| 0 <= i < list.len() implies call_requires(
                    f,
                    (#[trigger] list[i],),
                ) by {
                    assert(keys[i] == list[i]);
                }
                Outcome::GentleMulticast(map_list(list, f))
            },
            Outcome::Broadcast => Outcome::Broadcast,
            Outcome::Discard => Outcome::Discard,
            Outcome::Default => Outcome::Default,
        }
    }

    /// Replaces the `Default` variant with the provided one.
    pub fn or(self, outcome: Outcome<T>) -> (res: Outcome<T>)
        ensures
            res == self.spec_or(outcome),
    {
        match self {
            Outcome::Default => outcome,
            _ => self,
        }
    }

    pub open spec fn spec_or(self, outcome: Outcome<T>) -> Outcome<T> {
        if self is Default {
            outcome
        } else {
            self
        }
    }
}

fn map_list<T, U, F: Fn(T) -> U>(list: Vec<T>, f: F) -> (res: Vec<U>)
    requires
        forall|i: int| 0 <= i < list.len() ==> call_requires(f, (#[trigger] list[i],)),
    ensures
        is_mapped(f, list@, res@),
{
    let mut res: Vec<U> = Vec::new();
    let ghost keys = list@;
    for val in iter: list
        invariant
            iter.seq() == keys,
            res.len() == iter.index(),
            forall|i: int| 0 <= i < keys.len() ==> call_requires(f, (#[trigger] keys[i],)),
            forall|i: int|
                0 <= i < res.len() ==> call_ensures(f, (#[trigger] keys[i],), #[trigger] res[i]),
    {
        res.push(f(val));
    }
    res
}

/// A key used for actor groups containing only one actor.
#[derive(Debug, Clone, Copy, PartialEq, Eq, Structural, Hash)]
pub struct Singleton;

impl Singleton {
    pub fn to_string(&self) -> (res: String)
        ensures
            res@ == "_"@,
    {
        "_".to_owned()
    }
}

/// The router of groups with only one actor.
pub open spec fn route_to_singleton(message: Option<SystemMessage>) -> Outcome<Singleton> {
    match message {
        // These messages shouldn't spawn actors.
        Some(SystemMessage::Terminate) => Outcome::GentleUnicast(Singleton),
        Some(SystemMessage::Ping) => Outcome::GentleUnicast(Singleton),
        Some(SystemMessage::ValidateConfig) => Outcome::Default,
        _ => Outcome::Unicast(Singleton),
    }
}

/// Routes messages of groups with only one actor.
pub fn route_singleton(envelope: &Envelope) -> (outcome: Outcome<Singleton>)
    ensures
        outcome == route_to_singleton(spec_classify(envelope.message)),
{
    match classify(&envelope.message) {
        Some(SystemMessage::Terminate) => Outcome::GentleUnicast(Singleton),
        Some(SystemMessage::Ping) => Outcome::GentleUnicast(Singleton),
        Some(SystemMessage::ValidateConfig) => Outcome::Default,
        _ => Outcome::Unicast(Singleton),
    }
}

impl<C> Router<C> for () {
    type Key = Singleton;

    open spec fn can_update(&self, config: &C) -> bool {
        true
    }

    open spec fn can_route(&self, envelope: &Envelope) -> bool {
        true
    }

    open spec fn is_updated(&self, config: &C, after: &Self) -> bool {
        *after == *self
    }

    open spec fn routes(&self, envelope: &Envelope, outcome: Outcome<Singleton>) -> bool {
        outcome == route_to_singleton(spec_classify(envelope.message))
    }

    fn update(&mut self, config: &C) {
    }

    fn route(&self, envelope: &Envelope) -> (outcome: Outcome<Singleton>) {
        route_singleton(envelope)
    }
}

// === Laws ===

/// The default behaviour never survives two replacements.
pub proof fn or_is_associative<T>(a: Outcome<T>, b: Outcome<T>, c: Outcome<T>)
    ensures
        a.spec_or(b).spec_or(c) == a.spec_or(b.spec_or(c)),
        !(b is Default) ==> !(a.spec_or(b) is Default),
{
}

/// Only the default behaviour is replaced.
pub proof fn only_default_is_replaced<T>(a: Outcome<T>, b: Outcome<T>, res: Outcome<T>)
    requires
        call_ensures(Outcome::<T>::or, (a, b), res),
    ensures
        a is Default ==> res == b,
        !(a is Default) ==> res == a,
{
}

proof fn lemma_mapped<T, U, F: Fn(T) -> U>(args: (Outcome<T>, F), res: Outcome<U>)
    requires
        call_ensures(Outcome::<T>::map::<U, F>, args, res),
    ensures
        args.0 matches Outcome::Unicast(key) ==> (res matches Outcome::Unicast(new)
            && call_ensures(args.1, (key,), new)),
        args.0 matches Outcome::GentleUnicast(key) ==> (res matches Outcome::GentleUnicast(new)
            && call_ensures(args.1, (key,), new)),
        args.0 matches Outcome::Multicast(list) ==> (res matches Outcome::Multicast(new)
            && is_mapped(args.1, list@, new@)),
        args.0 matches Outcome::GentleMulticast(list) ==> (res matches Outcome::GentleMulticast(new)
            && is_mapped(args.1, list@, new@)),
        args.0 is Broadcast ==> res is Broadcast,
        args.0 is Discard ==> res is Discard,
        args.0 is Default ==> res is Default,
{
}

/// Keys are transformed one by one, in order. The kind of the outcome stays.
pub proof fn keys_are_transformed<T, U, F: Fn(T) -> U>(
    outcome: Outcome<T>,
    f: F,
    res: Outcome<U>,
    i: int,
)
    requires
        call_ensures(Outcome::<T>::map::<U, F>, (outcome, f), res),
    ensures
        outcome is Unicast <==> res is Unicast,
        outcome is GentleUnicast <==> res is GentleUnicast,
        outcome is Multicast <==> res is Multicast,
        outcome is GentleMulticast <==> res is GentleMulticast,
        outcome is Broadcast <==> res is Broadcast,
        outcome is Discard <==> res is Discard,
        outcome is Default <==> res is Default,
        outcome matches Outcome::Unicast(key) ==> call_ensures(f, (key,), res->Unicast_0),
        outcome matches Outcome::GentleUnicast(key) ==> call_ensures(
            f,
            (key,),
            res->GentleUnicast_0,
        ),
        outcome matches Outcome::Multicast(list) ==> list@.len() == res->Multicast_0@.len() && (0
            <= i < list@.len() ==> call_ensures(f, (list@[i],), res->Multicast_0@[i])),
        outcome matches Outcome::GentleMulticast(list) ==> list@.len()
            == res->GentleMulticast_0@.len() && (0 <= i < list@.len() ==> call_ensures(
            f,
            (list@[i],),
            res->GentleMulticast_0@[i],
        )),
{
    lemma_mapped((outcome, f), res);
}

/// The only actor of a group gets everything and is started by everything, except for
/// messages that make no sense to an actor that isn't started. It has one name.
pub proof fn single_actor_gets_everything<C>(
    envelope: Envelope,
    message: Option<SystemMessage>,
    res: Outcome<Singleton>,
    by_router: Outcome<Singleton>,
    name: String,
)
    requires
        call_ensures(classify, (&envelope.message,), message),
        call_ensures(route_singleton, (&envelope,), res),
        call_ensures(<() as Router<C>>::route, (&(), &envelope), by_router),
        call_ensures(Singleton::to_string, (&Singleton,), name),
    ensures
        by_router == res,
        message == Some(SystemMessage::Terminate) || message == Some(SystemMessage::Ping)
            ==> res == Outcome::GentleUnicast(Singleton),
        message == Some(SystemMessage::ValidateConfig) ==> res is Default,
        message is None || message == Some(SystemMessage::UpdateConfig) || message == Some(
            SystemMessage::SubscribeToActorStatuses,
        ) ==> res == Outcome::Unicast(Singleton),
        name@ == "_"@,
{
}

} // verus!
