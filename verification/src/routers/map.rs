use std::marker::PhantomData;

use vstd::prelude::*;

use super::{Outcome, Router};
use crate::envelope::Envelope;

verus! {

/// Routes messages with a function. The function can depend on a state, which
/// is prepared each time the config is updated.
pub struct MapRouter<C, S, P, R> {
    config: PhantomData<C>,
    state: S,
    prepare: P,
    route: R,
}

impl<C, S, P, R> MapRouter<C, S, P, R> {
    pub closed spec fn state(&self) -> S {
        self.state
    }

    pub closed spec fn prepare_fn(&self) -> P {
        self.prepare
    }

    pub closed spec fn route_fn(&self) -> R {
        self.route
    }
}

/// Marks routers without a state.
#[derive(Debug, Clone, Copy)]
pub struct Stateless;

// Just router.
impl<C, R> MapRouter<C, (), Stateless, R> {
    pub fn new<K>(route: R) -> (this: MapRouter<C, (), Stateless, R>) where
        R: Fn(&Envelope) -> Outcome<K>,

        ensures
            this.route_fn() == route,
            Self::follows_route_fn(),
    {
        MapRouter { config: PhantomData, state: (), prepare: Stateless, route }
    }

    /// Every such router accepts any config, which changes nothing, and decides
    /// as its function does.
    pub open spec fn follows_route_fn<K>() -> bool where R: Fn(&Envelope) -> Outcome<K> {
        &&& forall|this: Self, config: &C| #[trigger] Router::<C>::can_update(&this, config)
        &&& forall|this: Self, config: &C, after: Self| #[trigger]
            Router::<C>::is_updated(&this, config, &after) <==> after == this
        &&& forall|this: Self, envelope: &Envelope| #[trigger]
            Router::<C>::can_route(&this, envelope) <==> call_requires(
                this.route_fn(),
                (envelope,),
            )
        &&& forall|this: Self, envelope: &Envelope, outcome: Outcome<K>| #[trigger]
            Router::<C>::routes(&this, envelope, outcome) <==> call_ensures(
                this.route_fn(),
                (envelope,),
                outcome,
            )
    }
}

impl<C, R, K> Router<C> for MapRouter<C, (), Stateless, R> where R: Fn(&Envelope) -> Outcome<K> {
    type Key = K;

    open spec fn can_update(&self, config: &C) -> bool {
        true
    }

    open spec fn can_route(&self, envelope: &Envelope) -> bool {
        call_requires(self.route_fn(), (envelope,))
    }

    open spec fn is_updated(&self, config: &C, after: &Self) -> bool {
        *after == *self
    }

    open spec fn routes(&self, envelope: &Envelope, outcome: Outcome<K>) -> bool {
        call_ensures(self.route_fn(), (envelope,), outcome)
    }

    fn update(&mut self, config: &C) {
    }

    fn route(&self, envelope: &Envelope) -> (outcome: Outcome<K>) {
        (self.route)(envelope)
    }
}

/// A function that prepares the next state of a router.
#[derive(Debug)]
pub struct Prepare<P>(pub P);

// With state.
impl<C, S, P, R> MapRouter<C, S, Prepare<P>, R> {
    /// Creates a router with the initial state.
    pub fn with_state<K>(state: S, prepare: P, route: R) -> (this: MapRouter<
        C,
        S,
        Prepare<P>,
        R,
    >) where P: Fn(&C, &S) -> S, R: Fn(&Envelope, &S) -> Outcome<K>
        ensures
            this.state() == state,
            this.prepare_fn().0 == prepare,
            this.route_fn() == route,
            Self::follows_fns(),
    {
        MapRouter { config: PhantomData, state, prepare: Prepare(prepare), route }
    }

    /// Every such router gets its next state from one function, and decides as
    /// the other one does in the current state.
    pub open spec fn follows_fns<K>() -> bool where
        P: Fn(&C, &S) -> S,
        R: Fn(&Envelope, &S) -> Outcome<K>,
     {
        &&& forall|this: Self, config: &C| #[trigger]
            Router::<C>::can_update(&this, config) <==> call_requires(
                this.prepare_fn().0,
                (config, &this.state()),
            )
        &&& forall|this: Self, config: &C, after: Self| #[trigger]
            Router::<C>::is_updated(&this, config, &after) <==> {
                &&& call_ensures(this.prepare_fn().0, (config, &this.state()), after.state())
                &&& after.prepare_fn() == this.prepare_fn()
                &&& after.route_fn() == this.route_fn()
            }
        &&& forall|this: Self, envelope: &Envelope| #[trigger]
            Router::<C>::can_route(&this, envelope) <==> call_requires(
                this.route_fn(),
                (envelope, &this.state()),
            )
        &&& forall|this: Self, envelope: &Envelope, outcome: Outcome<K>| #[trigger]
            Router::<C>::routes(&this, envelope, outcome) <==> call_ensures(
                this.route_fn(),
                (envelope, &this.state()),
                outcome,
            )
    }
}

impl<C, S, P, R, K> Router<C> for MapRouter<C, S, Prepare<P>, R> where
    P: Fn(&C, &S) -> S,
    R: Fn(&Envelope, &S) -> Outcome<K>,
 {
    type Key = K;

    open spec fn can_update(&self, config: &C) -> bool {
        call_requires(self.prepare_fn().0, (config, &self.state()))
    }

    open spec fn can_route(&self, envelope: &Envelope) -> bool {
        call_requires(self.route_fn(), (envelope, &self.state()))
    }

    open spec fn is_updated(&self, config: &C, after: &Self) -> bool {
        &&& call_ensures(self.prepare_fn().0, (config, &self.state()), after.state())
        &&& after.prepare_fn() == self.prepare_fn()
        &&& after.route_fn() == self.route_fn()
    }

    open spec fn routes(&self, envelope: &Envelope, outcome: Outcome<K>) -> bool {
        call_ensures(self.route_fn(), (envelope, &self.state()), outcome)
    }

    /// Prepares the next state out of the config and the current one.
    fn update(&mut self, config: &C) {
        let state = (self.prepare.0)(config, &self.state);
        self.state = state;
    }

    fn route(&self, envelope: &Envelope) -> (outcome: Outcome<K>) {
        (self.route)(envelope, &self.state)
    }
}

// === Laws ===

/// A router without a state decides as its function does, whatever the config is.
pub proof fn function_decides<C, R: Fn(&Envelope) -> Outcome<K>, K>(
    f: R,
    router: &mut MapRouter<C, (), Stateless, R>,
    config: C,
    envelope: Envelope,
    res: Outcome<K>,
)
    requires
        call_ensures(MapRouter::<C, (), Stateless, R>::new::<K>, (f,), *old(router)),
        call_ensures(
            <MapRouter<C, (), Stateless, R> as Router<C>>::update,
            (router, &config),
            (),
        ),
        call_ensures(
            <MapRouter<C, (), Stateless, R> as Router<C>>::route,
            (final(router), &envelope),
            res,
        ),
    ensures
        call_ensures(f, (&envelope,), res),
{
}

/// A router with a state decides as its function does in the last prepared state, which
/// is made of the config and the previous state.
pub proof fn last_state_is_used<
    C,
    S,
    P: Fn(&C, &S) -> S,
    R: Fn(&Envelope, &S) -> Outcome<K>,
    K,
>(
    state: S,
    prepare: P,
    f: R,
    router: &mut MapRouter<C, S, Prepare<P>, R>,
    config: C,
    envelope: Envelope,
    before: Outcome<K>,
    after: Outcome<K>,
)
    requires
        call_ensures(
            MapRouter::<C, S, Prepare<P>, R>::with_state::<K>,
            (state, prepare, f),
            *old(router),
        ),
        call_ensures(
            <MapRouter<C, S, Prepare<P>, R> as Router<C>>::route,
            (old(router), &envelope),
            before,
        ),
        call_ensures(
            <MapRouter<C, S, Prepare<P>, R> as Router<C>>::update,
            (router, &config),
            (),
        ),
        call_ensures(
            <MapRouter<C, S, Prepare<P>, R> as Router<C>>::route,
            (final(router), &envelope),
            after,
        ),
    ensures
        call_ensures(f, (&envelope, &state), before),
        exists|next: S|
            call_ensures(prepare, (&config, &state), next) && #[trigger] call_ensures(
                f,
                (&envelope, &next),
                after,
            ),
{
    let next = final(router).state();
    assert(call_ensures(prepare, (&config, &state), next));
    assert(call_ensures(f, (&envelope, &next), after));
}

} // verus!
