use std::sync::Arc;

use vstd::prelude::*;

use super::error_chain::{joined, ErrorChain};
use super::objects::{has_addr, lists_all, Objects};
use crate::actor::{ActorMeta, ActorStartCause, ActorStatus, ActorStatusKind};
use crate::addr::Addr;
use crate::config::{AnyConfig, SystemConfig};
use crate::envelope::Envelope;
use crate::logging;
use crate::message::AnyMessage;
use crate::messages::ConfigRejected;
use crate::panic::{described, panic_to_string};
use crate::restarting::{RestartBackoff, RestartMode, RestartPolicy, RestartPolicyConfig};
use crate::routers::{Outcome, Router};
use crate::scope::{Scope, ScopeGroupShared};
use crate::subscription::{without, SubscriptionManager};
use crate::telemetry::config::PerActorKey;
use crate::time::Nanos;
use crate::tracing::TraceId;

verus! {

/// Keys of actors are numbered by the caller.
pub type Key = u64;

/// The behaviour on `Terminate`.
#[derive(Debug, Clone, Copy, PartialEq, Eq, Structural)]
pub struct TerminationPolicy {
    /// Whether new actors aren't started anymore.
    pub stop_spawning: bool,
}

/// The state that is changed while a group is working.
#[derive(Debug)]
pub struct ControlBlock<C> {
    pub system_config: SystemConfig,
    pub user_config: Option<Arc<C>>,
    pub is_started: bool,
    pub stop_spawning: bool,
}

/// Manages actors of one group.
pub struct Supervisor<R, C> {
    pub meta: ActorMeta,
    pub restart_policy: RestartPolicy,
    pub termination_policy: TerminationPolicy,
    pub objects: Objects,
    pub router: R,
    pub control: ControlBlock<C>,
    pub scope_shared: ScopeGroupShared,
    pub status_subscription: SubscriptionManager,
}

/// A decoded config.
#[derive(Debug)]
pub struct Decoded<C> {
    pub config: AnyConfig<C>,
    /// The same message with the decoded config inside.
    pub message: AnyMessage,
}

/// What a group gets. Configs come with results of their decoding.
#[derive(Debug)]
pub enum Incoming<C> {
    ValidateConfig(Result<Decoded<C>, String>),
    UpdateConfig(Result<Decoded<C>, String>),
    SubscribeToActorStatuses { sender: Addr, forcing: bool },
    Terminate,
    Ping,
    Other,
}

/// What replaces the default outcome of a router.
#[derive(Debug, Clone, Copy, PartialEq, Eq, Structural)]
pub enum Fallback {
    Broadcast,
    Discard,
}

/// What is left once a router decides.
#[derive(Debug)]
pub enum Pending {
    /// Start actors, the message isn't delivered.
    Mount,
    /// Deliver the message. If `message` is set, it replaces the received one.
    Deliver { fallback: Fallback, message: Option<AnyMessage> },
}

/// What to do with a message.
#[derive(Debug)]
pub enum Verdict {
    /// Handled, respond to the request.
    Reply(Result<(), ConfigRejected>),
    /// Start actors, then respond that it's fine.
    Mount(Outcome<Key>),
    /// Handled, send statuses of these actors to the subscriber.
    Report(Vec<Addr>),
    /// Deliver the envelope to actors.
    Deliver(Outcome<Key>),
}

/// The result of handling before a router is involved.
#[derive(Debug)]
pub enum Prepared {
    Done(Verdict),
    Route(Pending),
}

/// The result of looking for an actor.
#[derive(Debug, Clone, Copy, PartialEq, Eq, Structural)]
pub enum Lookup {
    /// There is such an actor.
    Found(Addr),
    /// A new actor must be started with the address because of the cause.
    Spawned(Addr, ActorStartCause),
    /// There is no such an actor and it isn't started.
    Missing,
}

impl Lookup {
    pub open spec fn spec_addr(self) -> Option<Addr> {
        match self {
            Lookup::Found(addr) => Some(addr),
            Lookup::Spawned(addr, _) => Some(addr),
            Lookup::Missing => None,
        }
    }

    pub fn addr(self) -> (res: Option<Addr>)
        ensures
            res == self.spec_addr(),
    {
        match self {
            Lookup::Found(addr) => Some(addr),
            Lookup::Spawned(addr, _) => Some(addr),
            Lookup::Missing => None,
        }
    }
}

/// How an actor has ended.
#[derive(Debug)]
pub enum ExecOutcome {
    Terminated,
    /// Descriptions of the error and its sources.
    Failed(ErrorChain),
    /// The payload if it's a text.
    Panicked(Option<String>),
}

impl ExecOutcome {
    pub open spec fn wf(&self) -> bool {
        self matches ExecOutcome::Failed(chain) ==> chain.messages.len() > 0
    }

    /// Whether it's the status of an actor that ended so.
    pub open spec fn is_status(&self, status: ActorStatus) -> bool {
        match self {
            ExecOutcome::Terminated => status.kind is Terminated && status.details is None,
            ExecOutcome::Failed(chain) => {
                &&& status.kind is Failed
                &&& status.details matches Some(details) && details@ == joined(chain.messages@)
            },
            ExecOutcome::Panicked(message) => {
                &&& status.kind is Failed
                &&& status.details matches Some(details) && details@ == described(
                    match message {
                        Some(message) => Some(message@),
                        None => None,
                    },
                )
            },
        }
    }

    pub fn to_status(&self) -> (status: ActorStatus)
        requires
            self.wf(),
        ensures
            self.is_status(status),
    {
        match self {
            ExecOutcome::Terminated => ActorStatus::new(ActorStatusKind::Terminated, None),
            ExecOutcome::Failed(chain) => ActorStatus::new(
                ActorStatusKind::Failed,
                Some(chain.to_string()),
            ),
            ExecOutcome::Panicked(Some(message)) => ActorStatus::new(
                ActorStatusKind::Failed,
                Some(panic_to_string(Some(message.as_str()))),
            ),
            ExecOutcome::Panicked(None) => ActorStatus::new(
                ActorStatusKind::Failed,
                Some(panic_to_string(None)),
            ),
        }
    }
}

/// What a router's outcome means for a message.
pub open spec fn concluded(pending: Pending, routed: Outcome<Key>) -> Verdict {
    match pending {
        Pending::Mount => Verdict::Mount(routed),
        Pending::Deliver { fallback, .. } => Verdict::Deliver(
            routed.spec_or(
                match fallback {
                    Fallback::Broadcast => Outcome::Broadcast,
                    Fallback::Discard => Outcome::Discard,
                },
            ),
        ),
    }
}

/// The envelope that actors get.
pub open spec fn concluded_envelope(pending: Pending, envelope: Envelope) -> Envelope {
    match pending {
        Pending::Deliver { message: Some(message), .. } => Envelope { message, ..envelope },
        _ => envelope,
    }
}

/// Concludes once a router has decided.
pub fn conclude(pending: Pending, routed: Outcome<Key>, envelope: &mut Envelope) -> (verdict: Verdict)
    ensures
        verdict == concluded(pending, routed),
        *final(envelope) == concluded_envelope(pending, *old(envelope)),
{
    match pending {
        Pending::Mount => Verdict::Mount(routed),
        Pending::Deliver { fallback, message } => {
            if let Some(message) = message {
                envelope.set_message(message);
            }
            Verdict::Deliver(
                match fallback {
                    Fallback::Broadcast => routed.or(Outcome::Broadcast),
                    Fallback::Discard => routed.or(Outcome::Discard),
                },
            )
        },
    }
}

/// How a control block is changed by a message.
pub open spec fn next_control<C>(
    control: ControlBlock<C>,
    policy: TerminationPolicy,
    incoming: Incoming<C>,
) -> ControlBlock<C> {
    match incoming {
        Incoming::ValidateConfig(Ok(decoded)) => if control.user_config is None {
            with_config(control, decoded.config)
        } else {
            control
        },
        Incoming::UpdateConfig(Ok(decoded)) => {
            let updated = if control.is_started || control.user_config is None {
                with_config(control, decoded.config)
            } else {
                control
            };
            ControlBlock { is_started: true, ..updated }
        },
        Incoming::Terminate => ControlBlock {
            stop_spawning: control.stop_spawning || policy.stop_spawning,
            ..control
        },
        _ => control,
    }
}

pub open spec fn with_config<C>(control: ControlBlock<C>, config: AnyConfig<C>) -> ControlBlock<C> {
    ControlBlock { system_config: config.system, user_config: Some(config.user), ..control }
}

/// Whether the config is applied.
pub open spec fn is_applied<C>(control: ControlBlock<C>, incoming: Incoming<C>) -> Option<
    AnyConfig<C>,
> {
    match incoming {
        Incoming::ValidateConfig(Ok(decoded)) if control.user_config is None => Some(
            decoded.config,
        ),
        Incoming::UpdateConfig(Ok(decoded)) if control.is_started || control.user_config is None => {
            Some(decoded.config)
        },
        _ => None,
    }
}

/// The envelope that a router decides on: validated configs are already decoded.
pub open spec fn routed_envelope<C>(
    control: ControlBlock<C>,
    incoming: Incoming<C>,
    envelope: Envelope,
) -> Envelope {
    match incoming {
        Incoming::ValidateConfig(Ok(decoded)) if control.user_config is Some => Envelope {
            message: decoded.message,
            ..envelope
        },
        _ => envelope,
    }
}

/// The envelope that actors get: all configs are decoded.
pub open spec fn delivered_envelope<C>(
    control: ControlBlock<C>,
    incoming: Incoming<C>,
    envelope: Envelope,
) -> Envelope {
    match incoming {
        Incoming::UpdateConfig(Ok(decoded)) if control.is_started => Envelope {
            message: decoded.message,
            ..envelope
        },
        _ => routed_envelope(control, incoming, envelope),
    }
}

/// What is done with a message before a router is involved.
pub open spec fn is_prepared<C>(
    control: ControlBlock<C>,
    subscribers: Seq<Addr>,
    objects: Map<u64, Addr>,
    incoming: Incoming<C>,
    prepared: Prepared,
) -> bool {
    match incoming {
        Incoming::ValidateConfig(Ok(_)) => if control.user_config is None {
            prepared == Prepared::Done(Verdict::Reply(Ok(())))
        } else {
            prepared == Prepared::Route(
                Pending::Deliver { fallback: Fallback::Discard, message: None },
            )
        },
        Incoming::UpdateConfig(Ok(decoded)) => prepared == Prepared::Route(
            if control.is_started {
                Pending::Deliver {
                    fallback: Fallback::Broadcast,
                    message: Some(decoded.message),
                }
            } else {
                Pending::Mount
            },
        ),
        Incoming::ValidateConfig(Err(reason)) => prepared == Prepared::Done(
            Verdict::Reply(Err(ConfigRejected { reason })),
        ),
        Incoming::UpdateConfig(Err(reason)) => prepared == Prepared::Done(
            Verdict::Reply(Err(ConfigRejected { reason })),
        ),
        Incoming::SubscribeToActorStatuses { sender, forcing } => {
            prepared matches Prepared::Done(Verdict::Report(addrs)) && {
                if subscribers.contains(sender) && !forcing {
                    addrs@.len() == 0
                } else {
                    lists_all(objects, addrs@)
                }
            }
        },
        Incoming::Terminate => prepared == Prepared::Route(
            Pending::Deliver { fallback: Fallback::Broadcast, message: None },
        ),
        Incoming::Ping => prepared == Prepared::Route(
            Pending::Deliver { fallback: Fallback::Broadcast, message: None },
        ),
        Incoming::Other => prepared == Prepared::Route(
            Pending::Deliver { fallback: Fallback::Discard, message: None },
        ),
    }
}

pub open spec fn config_wf<C>(incoming: Incoming<C>) -> bool {
    match incoming {
        Incoming::ValidateConfig(Ok(decoded)) => decoded.config.system.wf(),
        Incoming::UpdateConfig(Ok(decoded)) => decoded.config.system.wf(),
        _ => true,
    }
}

/// Whether a router decides on a message.
pub open spec fn is_routed<C>(control: ControlBlock<C>, incoming: Incoming<C>) -> bool {
    match incoming {
        Incoming::ValidateConfig(Ok(_)) => control.user_config is Some,
        Incoming::ValidateConfig(Err(_)) => false,
        Incoming::UpdateConfig(Err(_)) => false,
        Incoming::SubscribeToActorStatuses { .. } => false,
        _ => true,
    }
}

impl<C, R: Router<C, Key = u64>> Supervisor<R, C> {
    pub open spec fn wf(&self) -> bool {
        &&& self.control.system_config.wf()
        &&& self.restart_policy.params() matches Some(params) ==> params.wf()
    }

    /// Nothing is configured and nobody is started yet.
    pub fn new(
        group: String,
        group_addr: Addr,
        router: R,
        restart_policy: RestartPolicy,
        termination_policy: TerminationPolicy,
    ) -> (this: Self)
        requires
            restart_policy.params() matches Some(params) ==> params.wf(),
        ensures
            this.wf(),
            this.meta.group == group,
            this.meta.key@ == Seq::<char>::empty(),
            this.restart_policy == restart_policy,
            this.termination_policy == termination_policy,
            this.objects@ == Map::<u64, Addr>::empty(),
            this.router == router,
            this.control.system_config.max_log_level == Some(logging::Level::Info),
            !this.control.system_config.dumping_disabled,
            this.control.system_config.telemetry.per_actor_group,
            this.control.system_config.telemetry.per_actor_key == PerActorKey::Bool(false),
            this.control.system_config.restart_policy.0 is None,
            this.control.user_config is None,
            !this.control.is_started,
            !this.control.stop_spawning,
            this.scope_shared.addr == group_addr,
            this.scope_shared.permissions.cell.bits == 0,
            this.status_subscription.subscribers@ == Seq::<Addr>::empty(),
    {
        Supervisor {
            meta: ActorMeta { group, key: String::new() },
            restart_policy,
            termination_policy,
            objects: Objects::new(),
            router,
            control: ControlBlock {
                system_config: SystemConfig::default(),
                user_config: None,
                is_started: false,
                stop_spawning: false,
            },
            scope_shared: ScopeGroupShared::new(group_addr),
            status_subscription: SubscriptionManager::new(),
        }
    }

    /// Whether everything that isn't about configs is the same.
    pub open spec fn same_but_config(&self, other: &Self) -> bool {
        &&& self.meta == other.meta
        &&& self.restart_policy == other.restart_policy
        &&& self.termination_policy == other.termination_policy
        &&& self.objects == other.objects
    }

    /// Applies a config: to permissions, to the control block and to the router.
    pub fn update_config(&mut self, config: AnyConfig<C>)
        requires
            config.system.wf(),
            old(self).router.can_update(&*config.user),
        ensures
            final(self).control == with_config(old(self).control, config),
            old(self).router.is_updated(&*config.user, &final(self).router),
            final(self).scope_shared.is_configured(config.system),
            final(self).scope_shared.addr == old(self).scope_shared.addr,
            final(self).same_but_config(old(self)),
            final(self).status_subscription == old(self).status_subscription,
    {
        self.scope_shared.configure(&config.system);

        // Update user's config.
        self.router.update(&*config.user);
        self.control.system_config = config.system;
        self.control.user_config = Some(config.user);
    }

    /// Subscribes to statuses. Returns actors whose statuses must be sent to the
    /// subscriber: nobody if it's already subscribed, unless it's forced.
    pub fn subscribe_to_statuses(&mut self, sender: Addr, forcing: bool) -> (addrs: Vec<Addr>)
        ensures
            final(self).status_subscription.subscribers@ == old(self).status_subscription.subscribers@.push(sender),
            final(self).same_but_config(old(self)),
            final(self).control == old(self).control,
            final(self).scope_shared == old(self).scope_shared,
            final(self).router == old(self).router,
            if old(self).status_subscription.subscribers@.contains(sender) && !forcing {
                addrs@.len() == 0
            } else {
                lists_all(old(self).objects@, addrs@)
            },
    {
        // Firstly, add the subscriber to handle new objects right way.
        if !self.status_subscription.add(sender) && !forcing {
            // Already subscribed.
            return Vec::new();
        }

        // Send active statuses to the subscriber.
        self.objects.addrs()
    }

    /// Must be called if a status cannot be sent to the subscriber.
    pub fn unsubscribe(&mut self, sender: Addr)
        ensures
            final(self).status_subscription.subscribers@ == without(
                old(self).status_subscription.subscribers@,
                sender,
            ),
            final(self).same_but_config(old(self)),
            final(self).control == old(self).control,
            final(self).scope_shared == old(self).scope_shared,
            final(self).router == old(self).router,
    {
        self.status_subscription.remove(sender);
    }

    /// Whether the router accepts the config, if it's to be applied.
    pub open spec fn can_prepare(&self, incoming: Incoming<C>) -> bool {
        is_applied(self.control, incoming) matches Some(config) ==> self.router.can_update(
            &*config.user,
        )
    }

    /// Whether the router also accepts the envelope, if it has to decide on it. A
    /// config is applied beforehand.
    pub open spec fn can_handle(&self, envelope: &Envelope, incoming: Incoming<C>) -> bool {
        &&& self.can_prepare(incoming)
        &&& is_routed(self.control, incoming) ==> {
            let routed = routed_envelope(self.control, incoming, *envelope);
            match is_applied(self.control, incoming) {
                Some(config) => forall|after: R| #[trigger]
                    self.router.is_updated(&*config.user, &after) ==> after.can_route(&routed),
                None => self.router.can_route(&routed),
            }
        }
    }

    /// What a message does to everything except the control block.
    pub open spec fn is_prepared_by(&self, before: &Self, incoming: Incoming<C>) -> bool {
        &&& self.same_but_config(before)
        &&& match is_applied(before.control, incoming) {
            Some(config) => {
                &&& self.scope_shared.is_configured(config.system)
                &&& self.scope_shared.addr == before.scope_shared.addr
                &&& before.router.is_updated(&*config.user, &self.router)
            },
            None => {
                &&& self.scope_shared == before.scope_shared
                &&& self.router == before.router
            },
        }
        &&& self.status_subscription.subscribers@ == (match incoming {
            Incoming::SubscribeToActorStatuses { sender, .. } => {
                before.status_subscription.subscribers@.push(sender)
            },
            _ => before.status_subscription.subscribers@,
        })
    }

    /// Everything that is done with a message before a router is involved.
    pub fn prepare(&mut self, envelope: &mut Envelope, incoming: Incoming<C>) -> (prepared:
        Prepared)
        requires
            config_wf(incoming),
            old(self).can_prepare(incoming),
        ensures
            is_prepared(
                old(self).control,
                old(self).status_subscription.subscribers@,
                old(self).objects@,
                incoming,
                prepared,
            ),
            final(self).control == next_control(
                old(self).control,
                old(self).termination_policy,
                incoming,
            ),
            final(self).is_prepared_by(old(self), incoming),
            *final(envelope) == routed_envelope(old(self).control, incoming, *old(envelope)),
    {
        match incoming {
            Incoming::ValidateConfig(Ok(decoded)) => {
                if self.control.user_config.is_none() {
                    // We should update configs before spawning any actors
                    // to avoid a race condition at startup.
                    // So, we update the config on `ValidateConfig` at the first time.
                    self.update_config(decoded.config);
                    Prepared::Done(Verdict::Reply(Ok(())))
                } else {
                    envelope.set_message(decoded.message);
                    Prepared::Route(
                        Pending::Deliver { fallback: Fallback::Discard, message: None },
                    )
                }
            },
            Incoming::ValidateConfig(Err(reason)) => {
                Prepared::Done(Verdict::Reply(Err(ConfigRejected { reason })))
            },
            Incoming::UpdateConfig(Ok(decoded)) => {
                let Decoded { config, message } = decoded;
                let only_spawn = !self.control.is_started;
                if !only_spawn || self.control.user_config.is_none() {
                    // At the first time the config is updated on `ValidateConfig`.
                    self.update_config(config);
                }

                self.control.is_started = true;

                Prepared::Route(
                    if only_spawn {
                        Pending::Mount
                    } else {
                        // Send `UpdateConfig` across actors.
                        Pending::Deliver { fallback: Fallback::Broadcast, message: Some(message) }
                    },
                )
            },
            Incoming::UpdateConfig(Err(reason)) => {
                Prepared::Done(Verdict::Reply(Err(ConfigRejected { reason })))
            },
            Incoming::SubscribeToActorStatuses { sender, forcing } => {
                Prepared::Done(Verdict::Report(self.subscribe_to_statuses(sender, forcing)))
            },
            Incoming::Terminate => {
                if self.termination_policy.stop_spawning {
                    self.control.stop_spawning = true;
                }
                Prepared::Route(
                    Pending::Deliver { fallback: Fallback::Broadcast, message: None },
                )
            },
            Incoming::Ping => Prepared::Route(
                Pending::Deliver { fallback: Fallback::Broadcast, message: None },
            ),
            Incoming::Other => Prepared::Route(
                Pending::Deliver { fallback: Fallback::Discard, message: None },
            ),
        }
    }

    /// Decides what to do with a message.
    pub fn handle(&mut self, envelope: &mut Envelope, incoming: Incoming<C>) -> (verdict: Verdict)
        requires
            old(self).wf(),
            config_wf(incoming),
            old(self).can_handle(&*old(envelope), incoming),
        ensures
            final(self).wf(),
            final(self).control == next_control(
                old(self).control,
                old(self).termination_policy,
                incoming,
            ),
            final(self).is_prepared_by(old(self), incoming),
            *final(envelope) == delivered_envelope(old(self).control, incoming, *old(envelope)),
            exists|prepared: Prepared| #[trigger]
                is_prepared(
                    old(self).control,
                    old(self).status_subscription.subscribers@,
                    old(self).objects@,
                    incoming,
                    prepared,
                ) && match prepared {
                    Prepared::Done(done) => verdict == done,
                    Prepared::Route(pending) => exists|routed: Outcome<Key>| #[trigger]
                        final(self).router.routes(
                            &routed_envelope(old(self).control, incoming, *old(envelope)),
                            routed,
                        ) && verdict == concluded(pending, routed),
                },
    {
        let prepared = self.prepare(envelope, incoming);
        let ghost old_prepared = prepared;
        assert(is_prepared(
            old(self).control,
            old(self).status_subscription.subscribers@,
            old(self).objects@,
            incoming,
            old_prepared,
        ));
        match prepared {
            Prepared::Done(verdict) => verdict,
            Prepared::Route(pending) => {
                let routed = self.router.route(&*envelope);
                conclude(pending, routed, envelope)
            },
        }
    }

    /// Finds an actor by its key.
    pub fn get_object(&self, key: Key) -> (lookup: Lookup)
        ensures
            lookup == found(self.objects@, key),
    {
        match self.objects.get(key) {
            Some(addr) => Lookup::Found(addr),
            None => Lookup::Missing,
        }
    }

    /// Whether there is a config for a new actor, if one has to be started.
    pub open spec fn can_get(&self, key: Key) -> bool {
        ||| self.objects@.dom().contains(key)
        ||| self.control.stop_spawning
        ||| self.control.user_config is Some
    }

    /// Finds an actor by its key or starts a new one with the address of a
    /// vacant place.
    pub fn get_object_or_spawn(&mut self, key: Key, cause: ActorStartCause, vacant: Addr) -> (lookup:
        Lookup)
        requires
            vacant != Addr::null(),
            !(cause is Restarted),
            old(self).can_get(key),
        ensures
            lookup == spawned(
                old(self).objects@,
                old(self).control.stop_spawning,
                key,
                cause,
                vacant,
            ),
            final(self).objects@ == objects_after(old(self).objects@, key, lookup),
            final(self).same_but_objects(old(self)),
    {
        match self.objects.get(key) {
            Some(addr) => Lookup::Found(addr),
            None => self.spawn(key, cause, vacant),
        }
    }

    /// Whether everything except the list of actors is the same.
    pub open spec fn same_but_objects(&self, other: &Self) -> bool {
        &&& self.meta == other.meta
        &&& self.restart_policy == other.restart_policy
        &&& self.termination_policy == other.termination_policy
        &&& self.router == other.router
        &&& self.control == other.control
        &&& self.scope_shared == other.scope_shared
        &&& self.status_subscription == other.status_subscription
    }

    /// Decides whether to start an actor. An actor that isn't being restarted is
    /// never started twice. Nobody is started if spawning is stopped.
    pub fn spawn(&mut self, key: Key, cause: ActorStartCause, vacant: Addr) -> (lookup: Lookup)
        requires
            vacant != Addr::null(),
            if cause is Restarted {
                &&& old(self).objects@.dom().contains(key)
                &&& old(self).control.stop_spawning || old(self).control.user_config is Some
            } else {
                old(self).can_get(key)
            },
        ensures
            lookup == (if cause is Restarted {
                if old(self).control.stop_spawning {
                    Lookup::Missing
                } else {
                    Lookup::Spawned(vacant, cause)
                }
            } else {
                spawned(old(self).objects@, old(self).control.stop_spawning, key, cause, vacant)
            }),
            final(self).objects@ == objects_after(old(self).objects@, key, lookup),
            final(self).same_but_objects(old(self)),
    {
        if !cause.is_restarted() {
            if let Some(addr) = self.objects.get(key) {
                return Lookup::Found(addr);
            }
        }

        if self.control.stop_spawning {
            return Lookup::Missing;
        }

        self.objects.set(key, vacant);
        Lookup::Spawned(vacant, cause)
    }

    /// The scope of a started actor, `key` is its key as a text. Permissions stay
    /// in the group, so each update of the config reaches scopes of all actors.
    pub fn actor_scope(&self, trace_id: TraceId, addr: Addr, key: String) -> (scope: Scope)
        ensures
            scope.trace_id == trace_id,
            scope.group == self.scope_shared.addr,
            scope.actor.addr == addr,
            scope.actor.meta.group == self.meta.group,
            scope.actor.meta.key == key,
            match self.control.system_config.telemetry.per_actor_key.spec_key(key@) {
                Some(telemetry_key) => {
                    &&& scope.actor.telemetry_meta.group == self.meta.group
                    &&& scope.actor.telemetry_meta.key@ == telemetry_key
                },
                None => scope.actor.telemetry_meta == scope.actor.meta,
            },
    {
        let meta = ActorMeta { group: self.meta.group.clone(), key };
        Scope::new(trace_id, addr, meta, &self.scope_shared).with_telemetry(
            &self.control.system_config.telemetry,
        )
    }

    /// Finds or starts all actors with the keys. `vacant[i]` is the address for
    /// the i-th one.
    pub fn get_objects_or_spawn(
        &mut self,
        keys: &Vec<Key>,
        cause: ActorStartCause,
        vacant: &Vec<Addr>,
    ) -> (lookups: Vec<Lookup>)
        requires
            !(cause is Restarted),
            forall|i: int| 0 <= i < keys.len() ==> old(self).can_get(#[trigger] keys[i]),
            vacant.len() >= keys.len(),
            forall|i: int| 0 <= i < vacant.len() ==> #[trigger] vacant[i] != Addr::null(),
        ensures
            (final(self).objects@, lookups@) == spawned_all(
                old(self).objects@,
                old(self).control.stop_spawning,
                keys@,
                cause,
                vacant@,
            ),
            final(self).same_but_objects(old(self)),
    {
        let mut lookups: Vec<Lookup> = Vec::new();
        let ghost before = *self;
        let mut i: usize = 0;
        assert(keys@.take(0).len() == 0);
        assert(spawned_all(
            before.objects@,
            before.control.stop_spawning,
            keys@.take(0),
            cause,
            vacant@,
        ) == (before.objects@, Seq::<Lookup>::empty()));
        while i < keys.len()
            invariant
                i <= keys.len() <= vacant.len(),
                !(cause is Restarted),
                forall|i: int| 0 <= i < keys.len() ==> self.can_get(#[trigger] keys[i]),
                forall|i: int| 0 <= i < vacant.len() ==> #[trigger] vacant[i] != Addr::null(),
                self.same_but_objects(&before),
                (self.objects@, lookups@) == spawned_all(
                    before.objects@,
                    before.control.stop_spawning,
                    keys@.take(i as int),
                    cause,
                    vacant@,
                ),
            decreases keys.len() - i,
        {
            let lookup = self.get_object_or_spawn(keys[i], cause, vacant[i]);
            lookups.push(lookup);
            i += 1;
            assert(keys@.take(i as int).drop_last() =~= keys@.take(i - 1));
            assert(keys@.take(i as int).last() == keys@[i - 1]);
        }
        assert(keys@.take(i as int) =~= keys@);
        lookups
    }

    /// Finds all actors with the keys, nobody is started.
    pub fn get_objects(&self, keys: &Vec<Key>) -> (lookups: Vec<Lookup>)
        ensures
            lookups@ == keys@.map_values(|key: Key| found(self.objects@, key)),
    {
        let mut lookups: Vec<Lookup> = Vec::new();
        let mut i: usize = 0;
        while i < keys.len()
            invariant
                i <= keys.len(),
                lookups.len() == i,
                forall|k: int| 0 <= k < i ==> #[trigger] lookups[k] == found(self.objects@, keys[k]),
            decreases keys.len() - i,
        {
            lookups.push(self.get_object(keys[i]));
            i += 1;
        }
        assert(lookups@ =~= keys@.map_values(|key: Key| found(self.objects@, key)));
        lookups
    }

    /// Finds or starts actors that get a message, in the order of visiting.
    pub fn targets(&mut self, outcome: &Outcome<Key>, vacant: &Vec<Addr>) -> (lookups: Vec<Lookup>)
        requires
            !(outcome is Default),
            outcome is Unicast || outcome is Multicast ==> {
                &&& vacant.len() >= outcome.keys().len()
                &&& forall|i: int|
                    0 <= i < outcome.keys().len() ==> old(self).can_get(
                        #[trigger] outcome.keys()[i],
                    )
            },
            forall|i: int| 0 <= i < vacant.len() ==> #[trigger] vacant[i] != Addr::null(),
        ensures
            final(self).same_but_objects(old(self)),
            match *outcome {
                Outcome::Unicast(key) => (final(self).objects@, lookups@) == spawned_all(
                    old(self).objects@,
                    old(self).control.stop_spawning,
                    seq![key],
                    ActorStartCause::OnMessage,
                    vacant@,
                ),
                Outcome::Multicast(keys) => (final(self).objects@, lookups@) == spawned_all(
                    old(self).objects@,
                    old(self).control.stop_spawning,
                    keys@,
                    ActorStartCause::OnMessage,
                    vacant@,
                ),
                Outcome::GentleUnicast(key) => {
                    &&& final(self).objects@ == old(self).objects@
                    &&& lookups@ == seq![found(old(self).objects@, key)]
                },
                Outcome::GentleMulticast(keys) => {
                    &&& final(self).objects@ == old(self).objects@
                    &&& lookups@ == keys@.map_values(|key: Key| found(old(self).objects@, key))
                },
                Outcome::Broadcast => {
                    &&& final(self).objects@ == old(self).objects@
                    &&& forall|i: int| 0 <= i < lookups.len() ==> (#[trigger] lookups[i]) is Found
                    &&& lists_all(
                        old(self).objects@,
                        lookups@.map_values(|lookup: Lookup| lookup->Found_0),
                    )
                },
                Outcome::Discard => {
                    &&& final(self).objects@ == old(self).objects@
                    &&& lookups@.len() == 0
                },
                Outcome::Default => true,
            },
    {
        match outcome {
            Outcome::Unicast(key) => {
                let mut keys: Vec<Key> = Vec::new();
                keys.push(*key);
                assert(keys@ =~= outcome.keys());
                self.get_objects_or_spawn(&keys, ActorStartCause::OnMessage, vacant)
            },
            Outcome::Multicast(keys) => {
                assert(keys@ =~= outcome.keys());
                self.get_objects_or_spawn(keys, ActorStartCause::OnMessage, vacant)
            },
            Outcome::GentleUnicast(key) => {
                let mut lookups: Vec<Lookup> = Vec::new();
                lookups.push(self.get_object(*key));
                assert(lookups@ =~= seq![found(self.objects@, *key)]);
                lookups
            },
            Outcome::GentleMulticast(keys) => self.get_objects(keys),
            Outcome::Broadcast => {
                let addrs = self.objects.addrs();
                let mut lookups: Vec<Lookup> = Vec::new();
                let ghost before = *self;
                let mut i: usize = 0;
                while i < addrs.len()
                    invariant
                        i <= addrs.len(),
                        lookups.len() == i,
                        forall|k: int|
                            0 <= k < i ==> #[trigger] lookups[k] == Lookup::Found(addrs[k]),
                    decreases addrs.len() - i,
                {
                    lookups.push(Lookup::Found(addrs[i]));
                    i += 1;
                }
                assert(lookups@.map_values(|lookup: Lookup| lookup->Found_0) =~= addrs@);
                lookups
            },
            _ => Vec::new(),
        }
    }

    /// Starts actors right after a group is mounted, only if the router wants it.
    pub fn spawn_on_group_mounted(&mut self, outcome: &Outcome<Key>, vacant: &Vec<Addr>) -> (lookups:
        Vec<Lookup>)
        requires
            outcome is Unicast || outcome is Multicast ==> {
                &&& vacant.len() >= outcome.keys().len()
                &&& forall|i: int|
                    0 <= i < outcome.keys().len() ==> old(self).can_get(
                        #[trigger] outcome.keys()[i],
                    )
            },
            forall|i: int| 0 <= i < vacant.len() ==> #[trigger] vacant[i] != Addr::null(),
        ensures
            final(self).same_but_objects(old(self)),
            if outcome is Unicast || outcome is Multicast {
                (final(self).objects@, lookups@) == spawned_all(
                    old(self).objects@,
                    old(self).control.stop_spawning,
                    outcome.keys(),
                    ActorStartCause::GroupMounted,
                    vacant@,
                )
            } else {
                &&& final(self).objects@ == old(self).objects@
                &&& lookups@.len() == 0
            },
    {
        match outcome {
            Outcome::Unicast(key) => {
                let mut keys: Vec<Key> = Vec::new();
                keys.push(*key);
                assert(keys@ =~= outcome.keys());
                self.get_objects_or_spawn(&keys, ActorStartCause::GroupMounted, vacant)
            },
            Outcome::Multicast(keys) => {
                assert(keys@ =~= outcome.keys());
                self.get_objects_or_spawn(keys, ActorStartCause::GroupMounted, vacant)
            },
            _ => Vec::new(),
        }
    }

    /// The policy an actor is restarted by: the one set by the actor, the one
    /// from the config, or the one of the group.
    pub open spec fn policy(&self, actor_policy: Option<RestartPolicy>) -> RestartPolicy {
        match actor_policy {
            Some(policy) => policy,
            None => match self.control.system_config.restart_policy.policy() {
                Some(policy) => policy,
                None => self.restart_policy,
            },
        }
    }

    pub fn select_policy(&self, actor_policy: Option<RestartPolicy>) -> (policy: RestartPolicy)
        requires
            self.wf(),
            actor_policy matches Some(policy) ==> policy.params() matches Some(params)
                ==> params.wf(),
        ensures
            policy == self.policy(actor_policy),
            policy.params() matches Some(params) ==> params.wf(),
    {
        match actor_policy {
            Some(policy) => policy,
            None => match self.control.system_config.restart_policy.make_policy() {
                Some(policy) => policy,
                None => self.restart_policy,
            },
        }
    }

    /// Whether an actor with the policy is restarted.
    pub open spec fn is_restarted(&self, policy: RestartPolicy, is_failed: bool) -> bool {
        policy.allows(is_failed) && !self.control.stop_spawning && policy.params() is Some
    }

    /// Decides what to do with an actor that has ended: returns its last status
    /// and a delay before restarting, `None` if it shouldn't be restarted.
    ///
    /// `scaled` is what [`RestartBackoff::next`] gets.
    pub fn on_exit(
        &self,
        outcome: &ExecOutcome,
        actor_policy: Option<RestartPolicy>,
        backoff: &mut RestartBackoff,
        now: Nanos,
        scaled: Option<Nanos>,
    ) -> (res: (ActorStatus, Option<Nanos>))
        requires
            self.wf(),
            outcome.wf(),
            actor_policy matches Some(policy) ==> policy.params() matches Some(params)
                ==> params.wf(),
            old(backoff).restart_count < u64::MAX,
            old(backoff).power < u64::MAX,
        ensures
            outcome.is_status(res.0),
            ({
                let policy = self.policy(actor_policy);
                if self.is_restarted(policy, !(outcome is Terminated)) {
                    &&& res.1 == old(backoff).delay(policy.params()->0, now, scaled)
                    &&& *final(backoff) == old(backoff).spec_next(policy.params()->0, now)
                } else {
                    &&& res.1 is None
                    &&& *final(backoff) == *old(backoff)
                }
            }),
    {
        let status = outcome.to_status();
        let policy = self.select_policy(actor_policy);
        let restarting_allowed = policy.restarting_allowed(&status) && !self.control.stop_spawning;

        let restart_after = if restarting_allowed {
            match policy.restart_params() {
                Some(params) => backoff.next(&params, now, scaled),
                None => None,
            }
        } else {
            None
        };
        (status, restart_after)
    }

    /// Must be called if an actor isn't restarted.
    pub fn on_removed(&mut self, key: Key) -> (is_removed: bool)
        ensures
            is_removed == old(self).objects@.dom().contains(key),
            final(self).objects@ == old(self).objects@.remove(key),
            final(self).same_but_objects(old(self)),
    {
        self.objects.remove(key)
    }

    /// Actors to wait for to consider a group as finished.
    pub fn finished(&self) -> (addrs: Vec<Addr>)
        ensures
            lists_all(self.objects@, addrs@),
    {
        self.objects.addrs()
    }
}

/// The result of looking for an actor without starting.
pub open spec fn found(objects: Map<u64, Addr>, key: Key) -> Lookup {
    if objects.dom().contains(key) {
        Lookup::Found(objects[key])
    } else {
        Lookup::Missing
    }
}

/// The result of looking for an actor or starting it.
pub open spec fn spawned(
    objects: Map<u64, Addr>,
    stop_spawning: bool,
    key: Key,
    cause: ActorStartCause,
    vacant: Addr,
) -> Lookup {
    if objects.dom().contains(key) {
        Lookup::Found(objects[key])
    } else if stop_spawning {
        Lookup::Missing
    } else {
        Lookup::Spawned(vacant, cause)
    }
}

/// Actors of a group after looking for one of them.
pub open spec fn objects_after(objects: Map<u64, Addr>, key: Key, lookup: Lookup) -> Map<
    u64,
    Addr,
> {
    match lookup {
        Lookup::Spawned(addr, _) => objects.insert(key, addr),
        _ => objects,
    }
}

/// Actors of a group and results after looking for all keys one by one.
pub open spec fn spawned_all(
    objects: Map<u64, Addr>,
    stop_spawning: bool,
    keys: Seq<Key>,
    cause: ActorStartCause,
    vacant: Seq<Addr>,
) -> (Map<u64, Addr>, Seq<Lookup>)
    decreases keys.len(),
{
    if keys.len() == 0 {
        (objects, Seq::empty())
    } else {
        let (before, lookups) = spawned_all(
            objects,
            stop_spawning,
            keys.drop_last(),
            cause,
            vacant,
        );
        let lookup = spawned(before, stop_spawning, keys.last(), cause, vacant[keys.len() - 1]);
        (objects_after(before, keys.last(), lookup), lookups.push(lookup))
    }
}

// === Visiting ===

/// A call of a group visitor.
#[derive(Debug, Clone, Copy, PartialEq, Eq, Structural)]
pub enum VisitStep {
    Empty,
    Visit(Addr),
    VisitLast(Addr),
}

/// How actors are visited: all but the last one get a copy of the message.
pub open spec fn visits(addrs: Seq<Addr>) -> Seq<VisitStep> {
    if addrs.len() == 0 {
        seq![VisitStep::Empty]
    } else {
        addrs.drop_last().map_values(|addr: Addr| VisitStep::Visit(addr)).push(
            VisitStep::VisitLast(addrs.last()),
        )
    }
}

/// Decides how to visit actors that still exist.
pub fn visit_multiple(addrs: &Vec<Addr>) -> (steps: Vec<VisitStep>)
    ensures
        steps@ == visits(addrs@),
{
    let mut steps: Vec<VisitStep> = Vec::new();
    if addrs.len() == 0 {
        steps.push(VisitStep::Empty);
        assert(steps@ =~= seq![VisitStep::Empty]);
        return steps;
    }

    let mut i: usize = 0;
    while i + 1 < addrs.len()
        invariant
            i < addrs.len(),
            steps.len() == i,
            forall|k: int| 0 <= k < i ==> #[trigger] steps[k] == VisitStep::Visit(addrs[k]),
        decreases addrs.len() - i,
    {
        steps.push(VisitStep::Visit(addrs[i]));
        i += 1;
    }
    steps.push(VisitStep::VisitLast(addrs[i]));
    assert(steps@ =~= visits(addrs@));
    steps
}

// === Laws ===

/// An applied config reaches actors that are already started: their scopes see
/// permissions of the group, which are now what the config allows.
pub proof fn config_reaches_started_actors<C, R: Router<C, Key = u64>>(
    before: Supervisor<R, C>,
    after: Supervisor<R, C>,
    incoming: Incoming<C>,
    scope: Scope,
)
    requires
        scope.group == before.scope_shared.addr,
        after.is_prepared_by(&before, incoming),
    ensures
        scope.group == after.scope_shared.addr,
        is_applied(before.control, incoming) matches Some(config)
            ==> after.scope_shared.is_configured(config.system),
{
}

/// A started actor is found by its key, other actors stay.
pub proof fn spawned_is_found(
    objects: Map<u64, Addr>,
    stop_spawning: bool,
    key: Key,
    other: Key,
    cause: ActorStartCause,
    vacant: Addr,
)
    ensures
        ({
            let lookup = spawned(objects, stop_spawning, key, cause, vacant);
            let after = objects_after(objects, key, lookup);
            &&& lookup.spec_addr() is Some ==> found(after, key) == Lookup::Found(
                lookup.spec_addr()->0,
            )
            &&& other != key ==> found(after, other) == found(objects, other)
            &&& spawned(after, stop_spawning, key, cause, vacant) == found(after, key)
        }),
{
}

/// Once spawning is stopped, nobody is started.
pub proof fn nobody_is_spawned_after_stop(
    objects: Map<u64, Addr>,
    keys: Seq<Key>,
    cause: ActorStartCause,
    vacant: Seq<Addr>,
)
    ensures
        spawned_all(objects, true, keys, cause, vacant).0 == objects,
        spawned_all(objects, true, keys, cause, vacant).1 == keys.map_values(
            |key: Key| found(objects, key),
        ),
    decreases keys.len(),
{
    if keys.len() > 0 {
        nobody_is_spawned_after_stop(objects, keys.drop_last(), cause, vacant);
        assert(keys.map_values(|key: Key| found(objects, key)) =~= keys.drop_last().map_values(
            |key: Key| found(objects, key),
        ).push(found(objects, keys.last())));
    } else {
        assert(keys.map_values(|key: Key| found(objects, key)) =~= Seq::<Lookup>::empty());
    }
}

/// Stopping of spawning and starting of a group are irreversible, a config is
/// never lost.
pub proof fn control_is_monotonic<C>(
    control: ControlBlock<C>,
    policy: TerminationPolicy,
    incoming: Incoming<C>,
)
    ensures
        ({
            let next = next_control(control, policy, incoming);
            &&& control.stop_spawning ==> next.stop_spawning
            &&& control.is_started ==> next.is_started
            &&& control.user_config is Some ==> next.user_config is Some
            &&& next.is_started && !control.is_started ==> next.user_config is Some
        }),
{
}

/// Every visited actor gets the message exactly once, in order, and only the
/// last one gets the original.
pub proof fn everybody_is_visited(addrs: Seq<Addr>)
    requires
        addrs.len() > 0,
    ensures
        visits(addrs).len() == addrs.len(),
        forall|i: int|
            0 <= i < addrs.len() - 1 ==> #[trigger] visits(addrs)[i] == VisitStep::Visit(addrs[i]),
        visits(addrs).last() == VisitStep::VisitLast(addrs.last()),
{
}

/// The router has the last word on messages that aren't handled by the group
/// itself. If it answers `Default`, everybody gets a system message, except
/// `ValidateConfig`, and nobody gets any other one.
pub proof fn router_decides<C, R: Router<C, Key = u64>>(
    supervisor: &mut Supervisor<R, C>,
    envelope: &mut Envelope,
    incoming: Incoming<C>,
    verdict: Verdict,
    answer: Outcome<Key>,
)
    requires
        call_ensures(Supervisor::<R, C>::handle, (supervisor, envelope, incoming), verdict),
        forall|e: Envelope, routed: Outcome<Key>| #[trigger]
            final(supervisor).router.routes(&e, routed) ==> routed == answer,
    ensures
        ({
            let control = old(supervisor).control;
            let is_system = incoming is UpdateConfig || incoming is Terminate || incoming is Ping;
            let is_config = incoming matches Incoming::ValidateConfig(Ok(_));
            let is_update = incoming matches Incoming::UpdateConfig(Ok(_));
            let is_delivered = incoming is Terminate || incoming is Ping || incoming is Other || (
            is_update && control.is_started) || (is_config && control.user_config is Some);
            &&& verdict is Deliver <==> is_delivered
            &&& is_delivered && !(answer is Default) ==> verdict == Verdict::Deliver(answer)
            &&& is_delivered && answer is Default && is_system ==> verdict == Verdict::Deliver(
                Outcome::Broadcast,
            )
            &&& is_delivered && answer is Default && !is_system ==> verdict == Verdict::Deliver(
                Outcome::Discard,
            )
            &&& verdict is Mount <==> is_update && !control.is_started
            &&& verdict matches Verdict::Mount(routed) ==> routed == answer
        }),
{
}

/// Requests that are handled by the group itself are replied: the first config is
/// accepted, invalid ones are rejected with their reasons.
pub proof fn configs_are_replied<C, R: Router<C, Key = u64>>(
    supervisor: &mut Supervisor<R, C>,
    envelope: &mut Envelope,
    incoming: Incoming<C>,
    verdict: Verdict,
)
    requires
        call_ensures(Supervisor::<R, C>::handle, (supervisor, envelope, incoming), verdict),
    ensures
        incoming matches Incoming::ValidateConfig(Err(reason)) ==> (verdict matches Verdict::Reply(
            Err(rejected),
        ) && rejected.reason == reason),
        incoming matches Incoming::UpdateConfig(Err(reason)) ==> (verdict matches Verdict::Reply(
            Err(rejected),
        ) && rejected.reason == reason),
        verdict matches Verdict::Reply(Ok(_)) <==> (incoming matches Incoming::ValidateConfig(Ok(_))
            && old(supervisor).control.user_config is None),
{
}

/// What a group remembers of messages. The first valid config is applied, so is
/// every update of a started group. An update starts the group. Invalid configs,
/// repeated validations and other messages change nothing.
pub proof fn configs_are_applied<C, R: Router<C, Key = u64>>(
    supervisor: &mut Supervisor<R, C>,
    envelope: &mut Envelope,
    incoming: Incoming<C>,
    verdict: Verdict,
)
    requires
        call_ensures(Supervisor::<R, C>::handle, (supervisor, envelope, incoming), verdict),
    ensures
        ({
            let before = old(supervisor).control;
            let after = final(supervisor).control;
            let first = before.user_config is None;
            let update = incoming matches Incoming::UpdateConfig(Ok(_));
            &&& first || before.is_started ==> (incoming matches Incoming::UpdateConfig(
                Ok(decoded),
            ) ==> after.user_config == Some(decoded.config.user) && after.system_config
                == decoded.config.system && final(supervisor).scope_shared.is_configured(
                decoded.config.system,
            ) && old(supervisor).router.is_updated(
                &*decoded.config.user,
                &final(supervisor).router,
            ))
            &&& first ==> (incoming matches Incoming::ValidateConfig(Ok(decoded))
                ==> after.user_config == Some(decoded.config.user) && after.system_config
                == decoded.config.system && final(supervisor).scope_shared.is_configured(
                decoded.config.system,
            ) && old(supervisor).router.is_updated(
                &*decoded.config.user,
                &final(supervisor).router,
            ))
            &&& !first && !(update && before.is_started) ==> after.user_config == before.user_config
                && after.system_config == before.system_config && final(supervisor).router == old(supervisor).router && final(supervisor).scope_shared == old(supervisor).scope_shared
            &&& !(incoming is UpdateConfig || incoming is ValidateConfig) ==> after.user_config
                == before.user_config && after.system_config == before.system_config
            &&& after.is_started == (before.is_started || update)
            &&& after.stop_spawning == (before.stop_spawning || (incoming is Terminate && old(supervisor).termination_policy.stop_spawning))
            &&& final(supervisor).objects == old(supervisor).objects
        }),
{
}

/// Actors get configs that are already decoded, other messages are delivered as
/// they are.
pub proof fn configs_are_delivered_decoded<C, R: Router<C, Key = u64>>(
    supervisor: &mut Supervisor<R, C>,
    envelope: &mut Envelope,
    incoming: Incoming<C>,
    verdict: Verdict,
)
    requires
        call_ensures(Supervisor::<R, C>::handle, (supervisor, envelope, incoming), verdict),
    ensures
        final(envelope).kind == old(envelope).kind,
        final(envelope).trace_id == old(envelope).trace_id,
        verdict is Deliver ==> (incoming matches Incoming::UpdateConfig(Ok(decoded)) ==> final(envelope).message == decoded.message),
        verdict is Deliver ==> (incoming matches Incoming::ValidateConfig(Ok(decoded)) ==> final(envelope).message == decoded.message),
        !(incoming is UpdateConfig || incoming is ValidateConfig) ==> final(envelope).message
            == old(envelope).message,
{
}

/// A subscriber is told of all actors when it subscribes for the first time or
/// forces it, and is remembered in any case.
pub proof fn subscribers_are_told_of_all_actors<C, R: Router<C, Key = u64>>(
    supervisor: &mut Supervisor<R, C>,
    envelope: &mut Envelope,
    sender: Addr,
    forcing: bool,
    verdict: Verdict,
    key: Key,
)
    requires
        call_ensures(
            Supervisor::<R, C>::handle,
            (supervisor, envelope, Incoming::SubscribeToActorStatuses { sender, forcing }),
            verdict,
        ),
    ensures
        final(supervisor).status_subscription.subscribers@.contains(sender),
        forall|other: Addr|
            old(supervisor).status_subscription.subscribers@.contains(other) ==> final(supervisor).status_subscription.subscribers@.contains(other),
        verdict is Report,
        forcing || !old(supervisor).status_subscription.subscribers@.contains(sender) ==> (old(supervisor).objects@.dom().contains(key) ==> verdict->Report_0@.contains(
            old(supervisor).objects@[key],
        )),
        forall|i: int|
            0 <= i < verdict->Report_0.len() ==> has_addr(
                old(supervisor).objects@,
                #[trigger] verdict->Report_0[i],
            ),
        !forcing && old(supervisor).status_subscription.subscribers@.contains(sender)
            ==> verdict->Report_0.len() == 0,
{
    let before = old(supervisor).status_subscription.subscribers@;
    let after = before.push(sender);
    assert(after[before.len() as int] == sender);
    assert forall|other: Addr| before.contains(other) implies after.contains(other) by {
        let i = before.index_of(other);
        assert(after[i] == other);
    }
}

/// An actor is started only if nobody has its key and spawning isn't stopped. In
/// any case the returned actor is the one that is found by the key afterwards,
/// and others aren't affected.
pub proof fn actors_are_started_once<C, R: Router<C, Key = u64>>(
    supervisor: &mut Supervisor<R, C>,
    key: Key,
    cause: ActorStartCause,
    vacant: Addr,
    lookup: Lookup,
    known: Lookup,
    other: Key,
    before: Lookup,
    after: Lookup,
)
    requires
        call_ensures(Supervisor::<R, C>::get_object, (&*old(supervisor), key), known),
        call_ensures(
            Supervisor::<R, C>::get_object_or_spawn,
            (supervisor, key, cause, vacant),
            lookup,
        ),
        call_ensures(Supervisor::<R, C>::get_object, (&*old(supervisor), other), before),
        call_ensures(Supervisor::<R, C>::get_object, (&*final(supervisor), other), after),
    ensures
        known is Found ==> lookup == known,
        known is Missing && old(supervisor).control.stop_spawning ==> lookup is Missing,
        known is Missing && !old(supervisor).control.stop_spawning ==> lookup == Lookup::Spawned(
            vacant,
            cause,
        ),
        other != key ==> after == before,
        other == key ==> (match lookup {
            Lookup::Found(addr) => after == Lookup::Found(addr),
            Lookup::Spawned(addr, _) => after == Lookup::Found(addr),
            Lookup::Missing => after is Missing,
        }),
{
}

/// A restarted actor gets a new address, unless spawning is stopped.
pub proof fn restarted_actors_get_new_addresses<C, R: Router<C, Key = u64>>(
    supervisor: &mut Supervisor<R, C>,
    key: Key,
    vacant: Addr,
    lookup: Lookup,
    after: Lookup,
)
    requires
        old(supervisor).objects@.dom().contains(key),
        call_ensures(
            Supervisor::<R, C>::spawn,
            (supervisor, key, ActorStartCause::Restarted, vacant),
            lookup,
        ),
        call_ensures(Supervisor::<R, C>::get_object, (&*final(supervisor), key), after),
    ensures
        old(supervisor).control.stop_spawning ==> lookup is Missing && final(supervisor).objects@
            == old(supervisor).objects@,
        !old(supervisor).control.stop_spawning ==> lookup == Lookup::Spawned(
            vacant,
            ActorStartCause::Restarted,
        ) && after == Lookup::Found(vacant),
{
}

/// An actor that has been removed isn't found anymore, others are.
pub proof fn removed_actors_are_not_found<C, R: Router<C, Key = u64>>(
    supervisor: &mut Supervisor<R, C>,
    key: Key,
    is_removed: bool,
    known: Lookup,
    other: Key,
    before: Lookup,
    after: Lookup,
)
    requires
        call_ensures(Supervisor::<R, C>::get_object, (&*old(supervisor), key), known),
        call_ensures(Supervisor::<R, C>::on_removed, (supervisor, key), is_removed),
        call_ensures(Supervisor::<R, C>::get_object, (&*old(supervisor), other), before),
        call_ensures(Supervisor::<R, C>::get_object, (&*final(supervisor), other), after),
    ensures
        is_removed <==> known is Found,
        other == key ==> after is Missing,
        other != key ==> after == before,
{
}

proof fn lemma_spawned_all(
    objects: Map<u64, Addr>,
    stop_spawning: bool,
    keys: Seq<Key>,
    cause: ActorStartCause,
    vacant: Seq<Addr>,
    other: Key,
)
    ensures
        ({
            let (after, lookups) = spawned_all(objects, stop_spawning, keys, cause, vacant);
            &&& lookups.len() == keys.len()
            &&& forall|i: int|
                0 <= i < keys.len() ==> (match #[trigger] lookups[i] {
                    Lookup::Found(addr) => after.dom().contains(keys[i]) && after[keys[i]] == addr,
                    Lookup::Spawned(addr, by) => after.dom().contains(keys[i]) && after[keys[i]]
                        == addr && addr == vacant[i] && by == cause && !objects.dom().contains(
                        keys[i],
                    ) && !stop_spawning,
                    Lookup::Missing => stop_spawning && !objects.dom().contains(keys[i]),
                })
            &&& objects.dom().contains(other) ==> after.dom().contains(other) && after[other]
                == objects[other]
            &&& after.dom().contains(other) && !objects.dom().contains(other) ==> keys.contains(
                other,
            )
        }),
    decreases keys.len(),
{
    if keys.len() > 0 {
        let rest = keys.drop_last();
        let last = keys.last();
        lemma_spawned_all(objects, stop_spawning, rest, cause, vacant, other);
        lemma_spawned_all(objects, stop_spawning, rest, cause, vacant, last);
        let (middle, done) = spawned_all(objects, stop_spawning, rest, cause, vacant);
        let (after, lookups) = spawned_all(objects, stop_spawning, keys, cause, vacant);
        assert forall|i: int| 0 <= i < keys.len() implies (match #[trigger] lookups[i] {
            Lookup::Found(addr) => after.dom().contains(keys[i]) && after[keys[i]] == addr,
            Lookup::Spawned(addr, by) => after.dom().contains(keys[i]) && after[keys[i]] == addr
                && addr == vacant[i] && by == cause && !objects.dom().contains(keys[i])
                && !stop_spawning,
            Lookup::Missing => stop_spawning && !objects.dom().contains(keys[i]),
        }) by {
            if i < rest.len() {
                assert(lookups[i] == done[i]);
                assert(rest[i] == keys[i]);
            }
        }
        if after.dom().contains(other) && !objects.dom().contains(other) {
            if other == last {
                assert(keys[keys.len() - 1] == other);
            } else {
                let i = rest.index_of(other);
                assert(keys[i] == other);
            }
        }
    }
}

/// Actors with requested keys get the message, each in its turn. Gentle outcomes
/// start nobody, others start actors with missing keys and nobody else.
pub proof fn requested_actors_get_message<C, R: Router<C, Key = u64>>(
    supervisor: &mut Supervisor<R, C>,
    outcome: Outcome<Key>,
    vacant: Vec<Addr>,
    lookups: Vec<Lookup>,
    i: int,
    other: Key,
)
    requires
        call_ensures(Supervisor::<R, C>::targets, (supervisor, &outcome, &vacant), lookups),
        outcome is Unicast || outcome is GentleUnicast || outcome is Multicast
            || outcome is GentleMulticast,
        0 <= i < outcome.keys().len(),
    ensures
        lookups.len() == outcome.keys().len(),
        ({
            let key = outcome.keys()[i];
            let before = old(supervisor).objects@;
            let after = final(supervisor).objects@;
            let is_gentle = outcome is GentleUnicast || outcome is GentleMulticast;
            &&& match lookups[i] {
                Lookup::Found(addr) => after.dom().contains(key) && after[key] == addr,
                Lookup::Spawned(addr, cause) => after.dom().contains(key) && after[key] == addr
                    && addr == vacant[i] && cause is OnMessage && !before.dom().contains(key)
                    && !is_gentle && !old(supervisor).control.stop_spawning,
                Lookup::Missing => !before.dom().contains(key) && (is_gentle || old(supervisor).control.stop_spawning),
            }
            &&& before.dom().contains(other) ==> after.dom().contains(other) && after[other]
                == before[other]
            &&& is_gentle || old(supervisor).control.stop_spawning ==> after == before
            &&& after.dom().contains(other) && !before.dom().contains(other)
                ==> outcome.keys().contains(other)
        }),
{
    let before = old(supervisor).objects@;
    let stop = old(supervisor).control.stop_spawning;
    lemma_spawned_all(before, stop, outcome.keys(), ActorStartCause::OnMessage, vacant@, other);
    if stop {
        nobody_is_spawned_after_stop(
            before,
            outcome.keys(),
            ActorStartCause::OnMessage,
            vacant@,
        );
    }
}

/// A broadcast message gets to all actors and only to them, a discarded one gets
/// to nobody.
pub proof fn everybody_gets_broadcast<C, R: Router<C, Key = u64>>(
    supervisor: &mut Supervisor<R, C>,
    outcome: Outcome<Key>,
    vacant: Vec<Addr>,
    lookups: Vec<Lookup>,
    key: Key,
    i: int,
)
    requires
        call_ensures(Supervisor::<R, C>::targets, (supervisor, &outcome, &vacant), lookups),
        outcome is Broadcast || outcome is Discard,
    ensures
        final(supervisor).objects@ == old(supervisor).objects@,
        outcome is Discard ==> lookups.len() == 0,
        outcome is Broadcast && old(supervisor).objects@.dom().contains(key)
            ==> lookups@.contains(Lookup::Found(old(supervisor).objects@[key])),
        outcome is Broadcast && 0 <= i < lookups.len() ==> (lookups[i] matches Lookup::Found(addr)
            && has_addr(old(supervisor).objects@, addr)),
{
    if outcome is Broadcast {
        let addrs = lookups@.map_values(|lookup: Lookup| lookup->Found_0);
        if old(supervisor).objects@.dom().contains(key) {
            let k = addrs.index_of(old(supervisor).objects@[key]);
            assert(lookups[k] == Lookup::Found(old(supervisor).objects@[key]));
        }
        if 0 <= i < lookups.len() {
            assert(has_addr(old(supervisor).objects@, addrs[i]));
        }
    }
}

/// A mounted group starts exactly actors that its router names.
pub proof fn mounted_group_starts_named_actors<C, R: Router<C, Key = u64>>(
    supervisor: &mut Supervisor<R, C>,
    outcome: Outcome<Key>,
    vacant: Vec<Addr>,
    lookups: Vec<Lookup>,
    i: int,
    other: Key,
)
    requires
        vacant.len() >= outcome.keys().len(),
        call_ensures(
            Supervisor::<R, C>::spawn_on_group_mounted,
            (supervisor, &outcome, &vacant),
            lookups,
        ),
    ensures
        ({
            let before = old(supervisor).objects@;
            let after = final(supervisor).objects@;
            let stop = old(supervisor).control.stop_spawning;
            let key = outcome.keys()[i];
            if outcome is Unicast || outcome is Multicast {
                &&& lookups.len() == outcome.keys().len()
                &&& 0 <= i < lookups.len() && !before.dom().contains(key) && !stop
                    ==> after.dom().contains(key) && vacant@.contains(after[key])
                &&& 0 <= i < lookups.len() ==> (lookups[i] matches Lookup::Spawned(addr, cause)
                    ==> cause is GroupMounted && addr == vacant[i] && after[key] == addr)
                &&& before.dom().contains(other) ==> after.dom().contains(other) && after[other]
                    == before[other]
                &&& after.dom().contains(other) && !before.dom().contains(other)
                    ==> outcome.keys().contains(other)
            } else {
                after == before && lookups.len() == 0
            }
        }),
{
    let before = old(supervisor).objects@;
    let stop = old(supervisor).control.stop_spawning;
    let keys = outcome.keys();
    lemma_spawned_all(before, stop, keys, ActorStartCause::GroupMounted, vacant@, other);
    if (outcome is Unicast || outcome is Multicast) && 0 <= i < keys.len() {
        lemma_started_is_vacant(
            before,
            stop,
            keys,
            ActorStartCause::GroupMounted,
            vacant@,
            keys[i],
        );
    }
}

proof fn lemma_started_is_vacant(
    objects: Map<u64, Addr>,
    stop_spawning: bool,
    keys: Seq<Key>,
    cause: ActorStartCause,
    vacant: Seq<Addr>,
    key: Key,
)
    ensures
        ({
            let (after, lookups) = spawned_all(objects, stop_spawning, keys, cause, vacant);
            &&& keys.contains(key) && !stop_spawning ==> after.dom().contains(key)
            &&& after.dom().contains(key) && !objects.dom().contains(key) && keys.len()
                <= vacant.len() ==> vacant.contains(after[key])
        }),
    decreases keys.len(),
{
    if keys.len() > 0 {
        let rest = keys.drop_last();
        lemma_started_is_vacant(objects, stop_spawning, rest, cause, vacant, key);
        lemma_spawned_all(objects, stop_spawning, rest, cause, vacant, key);
        if keys.contains(key) && key != keys.last() {
            let i = keys.index_of(key);
            assert(rest[i] == key);
        }
        if keys.len() <= vacant.len() {
            assert(vacant.contains(vacant[keys.len() - 1]));
        }
    }
}

/// What an actor sets itself is more important than the config, which is more
/// important than what the group is built with.
pub proof fn policy_is_selected_by_priority<C, R: Router<C, Key = u64>>(
    supervisor: Supervisor<R, C>,
    actor_policy: Option<RestartPolicy>,
    configured: Option<RestartPolicy>,
    policy: RestartPolicy,
)
    requires
        call_ensures(
            RestartPolicyConfig::make_policy,
            (&supervisor.control.system_config.restart_policy,),
            configured,
        ),
        call_ensures(Supervisor::<R, C>::select_policy, (&supervisor, actor_policy), policy),
    ensures
        actor_policy is Some ==> Some(policy) == actor_policy,
        actor_policy is None && configured is Some ==> Some(policy) == configured,
        actor_policy is None && configured is None ==> policy == supervisor.restart_policy,
{
}

/// An actor is restarted only if its policy wants it and spawning isn't stopped.
/// Then it's the backoff that decides when. Otherwise, the backoff isn't touched.
pub proof fn ended_actors_are_restarted_by_policy<C, R: Router<C, Key = u64>>(
    supervisor: Supervisor<R, C>,
    outcome: ExecOutcome,
    actor_policy: Option<RestartPolicy>,
    backoff: &mut RestartBackoff,
    now: Nanos,
    scaled: Option<Nanos>,
    res: (ActorStatus, Option<Nanos>),
    policy: RestartPolicy,
)
    requires
        call_ensures(Supervisor::<R, C>::select_policy, (&supervisor, actor_policy), policy),
        call_ensures(
            Supervisor::<R, C>::on_exit,
            (&supervisor, &outcome, actor_policy, backoff, now, scaled),
            res,
        ),
    ensures
        ({
            let is_failed = !(outcome is Terminated);
            let params = match policy.mode {
                RestartMode::Always(params) => Some(params),
                RestartMode::OnFailure(params) => if is_failed {
                    Some(params)
                } else {
                    None
                },
                RestartMode::Never => None,
            };
            &&& is_failed <==> res.0.kind is Failed
            &&& outcome is Terminated ==> res.0.kind is Terminated && res.0.details is None
            &&& params is None || supervisor.control.stop_spawning ==> res.1 is None
                && *final(backoff) == *old(backoff)
            &&& !supervisor.control.stop_spawning ==> (params matches Some(params) ==> res.1
                == old(backoff).delay(params, now, scaled) && *final(backoff)
                == old(backoff).spec_next(params, now))
        }),
{
}

/// Failures and panics are described: by the whole chain of errors, or by the
/// payload of the panic.
pub proof fn failures_are_described(outcome: ExecOutcome, status: ActorStatus)
    requires
        outcome.wf(),
        call_ensures(ExecOutcome::to_status, (&outcome,), status),
    ensures
        outcome matches ExecOutcome::Failed(chain) ==> status.kind is Failed && (
        status.details matches Some(details) && chain.messages[0]@.is_prefix_of(details@)),
        outcome matches ExecOutcome::Panicked(Some(message)) ==> status.kind is Failed && (
        status.details matches Some(details) && details@ == "panic: "@ + message@),
        outcome matches ExecOutcome::Panicked(None) ==> status.kind is Failed
            && status.details is Some,
{
    if let ExecOutcome::Failed(chain) = outcome {
        crate::supervisor::error_chain::lemma_starts_with_outermost(chain.messages@);
    }
}

/// A scope of a started actor belongs to the group and to the actor. Metrics are
/// produced with its key only if the config doesn't describe another one.
pub proof fn scopes_belong_to_actors<C, R: Router<C, Key = u64>>(
    supervisor: Supervisor<R, C>,
    trace_id: TraceId,
    addr: Addr,
    key: String,
    text: &str,
    scope: Scope,
    telemetry_key: Option<String>,
)
    requires
        text@ == key@,
        call_ensures(Supervisor::<R, C>::actor_scope, (&supervisor, trace_id, addr, key), scope),
        call_ensures(
            PerActorKey::key,
            (&supervisor.control.system_config.telemetry.per_actor_key, text),
            telemetry_key,
        ),
    ensures
        scope.actor.addr == addr,
        scope.group == supervisor.scope_shared.addr,
        scope.trace_id == trace_id,
        scope.actor.meta.key == key,
        scope.actor.meta.group == supervisor.meta.group,
        scope.actor.telemetry_meta.group == supervisor.meta.group,
        scope.actor.telemetry_meta.key@ == (match telemetry_key {
            Some(telemetry_key) => telemetry_key@,
            None => key@,
        }),
{
}

/// All visited actors but the last one get a copy, nobody is visited twice.
pub proof fn visits_are_complete(addrs: Vec<Addr>, steps: Vec<VisitStep>, i: int)
    requires
        call_ensures(visit_multiple, (&addrs,), steps),
    ensures
        addrs.len() == 0 ==> steps@ =~= seq![VisitStep::Empty],
        addrs.len() > 0 ==> steps.len() == addrs.len(),
        0 <= i < addrs.len() - 1 ==> steps[i] == VisitStep::Visit(addrs[i]),
        i == addrs.len() - 1 && addrs.len() > 0 ==> steps[i] == VisitStep::VisitLast(addrs[i]),
{
}

/// A new group knows nothing but what it's made of: nobody is started or subscribed, and
/// nothing is configured.
pub proof fn new_group_is_empty<C, R: Router<C, Key = u64>>(
    group: String,
    group_addr: Addr,
    router: R,
    restart_policy: RestartPolicy,
    termination_policy: TerminationPolicy,
    supervisor: Supervisor<R, C>,
    key: Key,
    lookup: Lookup,
)
    requires
        call_ensures(
            Supervisor::<R, C>::new,
            (group, group_addr, router, restart_policy, termination_policy),
            supervisor,
        ),
        call_ensures(Supervisor::<R, C>::get_object, (&supervisor, key), lookup),
    ensures
        supervisor.meta.group == group && supervisor.meta.key@.len() == 0,
        supervisor.router == router,
        supervisor.restart_policy == restart_policy && supervisor.termination_policy
            == termination_policy,
        supervisor.scope_shared.addr == group_addr && supervisor.scope_shared.permissions.cell.bits
            == 0,
        lookup is Missing,
        supervisor.status_subscription.subscribers@.len() == 0,
        supervisor.control.user_config is None && !supervisor.control.is_started
            && !supervisor.control.stop_spawning,
        supervisor.control.system_config.restart_policy.0 is None,
{
}

/// What is left after the router has decided: a group that is being mounted takes its
/// decision as is, other messages are delivered. Only the default decision is replaced.
pub proof fn decisions_are_concluded(
    fallback: Fallback,
    message: AnyMessage,
    routed: Outcome<Key>,
    a: &mut Envelope,
    b: &mut Envelope,
    c: &mut Envelope,
    mount: Verdict,
    as_is: Verdict,
    replaced: Verdict,
)
    requires
        call_ensures(conclude, (Pending::Mount, routed, a), mount),
        call_ensures(conclude, (Pending::Deliver { fallback, message: None }, routed, b), as_is),
        call_ensures(
            conclude,
            (Pending::Deliver { fallback, message: Some(message) }, routed, c),
            replaced,
        ),
    ensures
        mount == Verdict::Mount(routed) && *final(a) == *old(a),
        as_is == replaced,
        *final(b) == *old(b),
        *final(c) == (Envelope { message, ..*old(c) }),
        !(routed is Default) ==> as_is == Verdict::Deliver(routed),
        routed is Default && fallback is Broadcast ==> as_is == Verdict::Deliver(
            Outcome::Broadcast,
        ),
        routed is Default && fallback is Discard ==> as_is == Verdict::Deliver(Outcome::Discard),
{
}

/// What is done before the router is involved is a part of handling: either it's the
/// whole of it, or the router's decision is concluded.
pub proof fn preparing_is_part_of_handling<C, R: Router<C, Key = u64>>(
    a: &mut Supervisor<R, C>,
    b: &mut Supervisor<R, C>,
    handled: &mut Envelope,
    prepared_envelope: &mut Envelope,
    concluded_by: &mut Envelope,
    incoming: Incoming<C>,
    verdict: Verdict,
    prepared: Prepared,
    answer: Outcome<Key>,
    conclusion: Verdict,
)
    requires
        *old(a) == *old(b),
        *old(handled) == *old(prepared_envelope),
        call_ensures(Supervisor::<R, C>::handle, (a, handled, incoming), verdict),
        call_ensures(Supervisor::<R, C>::prepare, (b, prepared_envelope, incoming), prepared),
        forall|e: Envelope, routed: Outcome<Key>| #[trigger]
            final(a).router.routes(&e, routed) ==> routed == answer,
        *old(concluded_by) == *final(prepared_envelope),
        prepared is Route ==> call_ensures(
            conclude,
            (prepared->Route_0, answer, concluded_by),
            conclusion,
        ),
    ensures
        prepared is Route ==> verdict == conclusion && *final(handled) == *final(concluded_by),
        prepared is Done ==> *final(handled) == *final(prepared_envelope),
        prepared is Done && !(incoming is SubscribeToActorStatuses) ==> verdict
            == prepared->Done_0,
        final(a).control == final(b).control,
        final(a).objects == final(b).objects,
        final(a).status_subscription.subscribers@ == final(b).status_subscription.subscribers@,
{
}

/// A config is applied to everything that depends on it, and to nothing else.
pub proof fn config_is_applied_everywhere<C, R: Router<C, Key = u64>>(
    supervisor: &mut Supervisor<R, C>,
    config: AnyConfig<C>,
)
    requires
        call_ensures(Supervisor::<R, C>::update_config, (supervisor, config), ()),
    ensures
        final(supervisor).control.system_config == config.system,
        final(supervisor).control.user_config == Some(config.user),
        final(supervisor).control.is_started == old(supervisor).control.is_started,
        final(supervisor).control.stop_spawning == old(supervisor).control.stop_spawning,
        old(supervisor).router.is_updated(&*config.user, &final(supervisor).router),
        final(supervisor).scope_shared.is_configured(config.system),
        final(supervisor).scope_shared.addr == old(supervisor).scope_shared.addr,
        final(supervisor).objects == old(supervisor).objects,
        final(supervisor).meta == old(supervisor).meta,
        final(supervisor).restart_policy == old(supervisor).restart_policy,
        final(supervisor).status_subscription == old(supervisor).status_subscription,
{
}

/// A subscriber is remembered until it's unsubscribed. Only who subscribes anew, or forces
/// it, is told of all actors.
pub proof fn subscribers_are_remembered<C, R: Router<C, Key = u64>>(
    a: &mut Supervisor<R, C>,
    b: &mut Supervisor<R, C>,
    c: &mut Supervisor<R, C>,
    sender: Addr,
    other: Addr,
    forcing: bool,
    first: Vec<Addr>,
    second: Vec<Addr>,
    key: Key,
)
    requires
        call_ensures(Supervisor::<R, C>::subscribe_to_statuses, (a, sender, forcing), first),
        *old(b) == *final(a),
        call_ensures(Supervisor::<R, C>::subscribe_to_statuses, (b, sender, false), second),
        *old(c) == *final(b),
        call_ensures(Supervisor::<R, C>::unsubscribe, (c, sender), ()),
    ensures
        final(a).status_subscription.subscribers@.contains(sender),
        forcing || !old(a).status_subscription.subscribers@.contains(sender) ==> (old(a).objects@.dom().contains(key) ==> first@.contains(old(a).objects@[key])),
        !forcing && old(a).status_subscription.subscribers@.contains(sender) ==> first@.len() == 0,
        second@.len() == 0,
        !final(c).status_subscription.subscribers@.contains(sender),
        other != sender ==> (final(c).status_subscription.subscribers@.contains(other) <==> old(a).status_subscription.subscribers@.contains(other)),
        final(c).objects == old(a).objects && final(c).control == old(a).control
            && final(c).router == old(a).router,
{
    let before = old(a).status_subscription.subscribers@;
    let once = before.push(sender);
    assert(once[before.len() as int] == sender);
    vstd::seq_lib::lemma_seq_contains_after_push(before, sender, other);
    vstd::seq_lib::lemma_seq_contains_after_push(once, sender, other);
    crate::subscription::removed_is_not_subscribed(once.push(sender), sender, other);
}

/// Looking for several actors is the same as looking for each of them. Nobody is started.
pub proof fn several_actors_are_found<C, R: Router<C, Key = u64>>(
    supervisor: Supervisor<R, C>,
    keys: Vec<Key>,
    lookups: Vec<Lookup>,
    lookup: Lookup,
    i: int,
)
    requires
        0 <= i < keys@.len(),
        call_ensures(Supervisor::<R, C>::get_objects, (&supervisor, &keys), lookups),
        call_ensures(Supervisor::<R, C>::get_object, (&supervisor, keys@[i]), lookup),
    ensures
        lookups@.len() == keys@.len(),
        lookups@[i] == lookup,
{
}

/// Starting of several actors is the same as starting of them one by one, each with its own
/// address.
pub proof fn several_actors_are_started<C, R: Router<C, Key = u64>>(
    fewer: &mut Supervisor<R, C>,
    more: &mut Supervisor<R, C>,
    last: &mut Supervisor<R, C>,
    keys: Vec<Key>,
    all_keys: Vec<Key>,
    key: Key,
    cause: ActorStartCause,
    vacant: Vec<Addr>,
    a: Vec<Lookup>,
    b: Vec<Lookup>,
    lookup: Lookup,
)
    requires
        *old(fewer) == *old(more),
        all_keys@ == keys@.push(key),
        keys@.len() < vacant@.len(),
        call_ensures(
            Supervisor::<R, C>::get_objects_or_spawn,
            (fewer, &keys, cause, &vacant),
            a,
        ),
        *old(last) == *final(fewer),
        call_ensures(
            Supervisor::<R, C>::get_object_or_spawn,
            (last, key, cause, vacant@[keys@.len() as int]),
            lookup,
        ),
        call_ensures(
            Supervisor::<R, C>::get_objects_or_spawn,
            (more, &all_keys, cause, &vacant),
            b,
        ),
    ensures
        keys@.len() == 0 ==> a@.len() == 0 && final(fewer).objects@ == old(fewer).objects@,
        b@ == a@.push(lookup),
        final(more).objects@ == final(last).objects@,
        final(more).control == old(more).control,
{
    assert(all_keys@.drop_last() =~= keys@);
    assert(all_keys@.last() == key);
}

/// A group is finished once all its actors are.
pub proof fn all_actors_are_waited_for<C, R: Router<C, Key = u64>>(
    supervisor: Supervisor<R, C>,
    addrs: Vec<Addr>,
    key: Key,
    lookup: Lookup,
    addr: Option<Addr>,
    i: int,
)
    requires
        call_ensures(Supervisor::<R, C>::finished, (&supervisor,), addrs),
        call_ensures(Supervisor::<R, C>::get_object, (&supervisor, key), lookup),
        call_ensures(Lookup::addr, (lookup,), addr),
    ensures
        lookup is Found ==> addr is Some && addrs@.contains(addr->0),
        lookup is Missing ==> addr is None,
        0 <= i < addrs@.len() ==> has_addr(supervisor.objects@, addrs@[i]),
{
}

/// An actor that is found or started has an address.
pub proof fn actors_have_addresses(
    addr: Addr,
    cause: ActorStartCause,
    a: Option<Addr>,
    b: Option<Addr>,
    c: Option<Addr>,
)
    requires
        call_ensures(Lookup::addr, (Lookup::Found(addr),), a),
        call_ensures(Lookup::addr, (Lookup::Spawned(addr, cause),), b),
        call_ensures(Lookup::addr, (Lookup::Missing,), c),
    ensures
        a == Some(addr) && b == Some(addr) && c is None,
{
}

/// A failure is described in full: by its error with all sources, or by the payload.
pub proof fn failures_are_described_in_full(
    chain: ErrorChain,
    message: String,
    text: &str,
    failed: ActorStatus,
    panicked: ActorStatus,
    unknown: ActorStatus,
    described_chain: String,
    described_panic: String,
    described_unknown: String,
)
    requires
        text@ == message@,
        call_ensures(ExecOutcome::to_status, (&ExecOutcome::Failed(chain),), failed),
        call_ensures(ExecOutcome::to_status, (&ExecOutcome::Panicked(Some(message)),), panicked),
        call_ensures(ExecOutcome::to_status, (&ExecOutcome::Panicked(None),), unknown),
        call_ensures(ErrorChain::to_string, (&chain,), described_chain),
        call_ensures(panic_to_string, (Some(text),), described_panic),
        call_ensures(panic_to_string, (None,), described_unknown),
    ensures
        failed.kind is Failed && panicked.kind is Failed && unknown.kind is Failed,
        failed.details is Some && failed.details->0@ == described_chain@,
        panicked.details is Some && panicked.details->0@ == described_panic@,
        unknown.details is Some && unknown.details->0@ == described_unknown@,
{
}

/// Once an actor is found or started, only known actors can differ.
pub proof fn started_actor_changes_nothing_else<C, R: Router<C, Key = u64>>(
    a: &mut Supervisor<R, C>,
    b: &mut Supervisor<R, C>,
    key: Key,
    cause: ActorStartCause,
    vacant: Addr,
    found: Lookup,
    started: Lookup,
)
    requires
        call_ensures(Supervisor::<R, C>::get_object_or_spawn, (a, key, cause, vacant), found),
        call_ensures(Supervisor::<R, C>::spawn, (b, key, cause, vacant), started),
    ensures
        final(a).control == old(a).control && final(b).control == old(b).control,
        final(a).router == old(a).router && final(b).router == old(b).router,
        final(a).meta == old(a).meta && final(b).meta == old(b).meta,
        final(a).restart_policy == old(a).restart_policy && final(b).restart_policy
            == old(b).restart_policy,
        final(a).termination_policy == old(a).termination_policy && final(b).termination_policy
            == old(b).termination_policy,
        final(a).scope_shared == old(a).scope_shared && final(b).scope_shared
            == old(b).scope_shared,
        final(a).status_subscription == old(a).status_subscription
            && final(b).status_subscription == old(b).status_subscription,
{
}

} // verus!
