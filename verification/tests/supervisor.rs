use std::sync::Arc;

use elfo::actor::{ActorStartCause, ActorStatusKind};
use elfo::addr::Addr;
use elfo::config::{AnyConfig, SystemConfig};
use elfo::envelope::{Envelope, MessageKind};
use elfo::message::{AnyMessage, MessageTypeId, MessageVTable};
use elfo::panic::panic_to_string;
use elfo::restarting::{
    RestartBackoff, RestartParams, RestartParamsConfig, RestartPolicy, RestartPolicyConfig,
    WhenConfig,
};
use elfo::routers::{route_singleton, MapRouter, Outcome, Router, Singleton};
use elfo::subscription::SubscriptionManager;
use elfo::supervisor::error_chain::ErrorChain;
use elfo::supervisor::group::{
    visit_multiple, Decoded, ExecOutcome, Incoming, Lookup, TerminationPolicy, Verdict, VisitStep,
};
use elfo::supervisor::Supervisor;
use elfo::telemetry::config::PerActorKey;
use elfo::tracing::TraceId;

fn envelope(protocol: &str, name: &str) -> Envelope {
    let id = MessageTypeId { raw: 1 };
    let vtable = MessageVTable::new(id, name.to_string(), protocol.to_string(), true);
    Envelope::new(
        TraceId::from_raw(1),
        MessageKind::Regular {
            sender: Addr::null(),
        },
        AnyMessage::new(vtable, vec![]),
    )
}

fn addr(bits: u64) -> Addr {
    Addr::from_bits(bits)
}

fn config(user: u32) -> AnyConfig<u32> {
    AnyConfig {
        system: SystemConfig::default(),
        user: Arc::new(user),
    }
}

fn decoded(user: u32) -> Decoded<u32> {
    Decoded {
        config: config(user),
        message: envelope("elfo-core", "Decoded").message,
    }
}

fn supervisor() -> Supervisor<impl Router<u32, Key = u64>, u32> {
    let router = MapRouter::new(|envelope: &Envelope| match envelope.message.name() {
        "One" => Outcome::Unicast(1),
        "Many" => Outcome::Multicast(vec![1, 2, 3]),
        "UpdateConfig" => Outcome::Unicast(5),
        _ => Outcome::Default,
    });
    Supervisor::new(
        "group".to_string(),
        addr(100),
        router,
        RestartPolicy::on_failure(RestartParams::new(10, 100)),
        TerminationPolicy {
            stop_spawning: true,
        },
    )
}

#[test]
fn group_is_mounted_once() {
    let mut s = supervisor();
    let mut update = envelope("elfo-core", "UpdateConfig");

    let verdict = s.handle(&mut update, Incoming::UpdateConfig(Ok(decoded(1))));
    assert!(matches!(verdict, Verdict::Mount(Outcome::Unicast(5))));
    assert!(s.control.is_started);
    assert_eq!(s.control.user_config.as_deref(), Some(&1));

    let lookups = s.spawn_on_group_mounted(&Outcome::Unicast(5), &vec![addr(7)]);
    assert_eq!(lookups, vec![Lookup::Spawned(addr(7), ActorStartCause::GroupMounted)]);

    let verdict = s.handle(&mut update, Incoming::UpdateConfig(Ok(decoded(2))));
    assert!(matches!(
        verdict,
        Verdict::Deliver(Outcome::Unicast(5))
    ));
    assert_eq!(s.control.user_config.as_deref(), Some(&2));
}

#[test]
fn configs_are_validated() {
    let mut s = supervisor();
    let mut validate = envelope("elfo-core", "ValidateConfig");

    let verdict = s.handle(&mut validate, Incoming::ValidateConfig(Err("oops".to_string())));
    assert!(matches!(verdict, Verdict::Reply(Err(err)) if err.reason == "oops"));
    assert!(s.control.user_config.is_none());

    // The first config is stored.
    let verdict = s.handle(&mut validate, Incoming::ValidateConfig(Ok(decoded(1))));
    assert!(matches!(verdict, Verdict::Reply(Ok(()))));
    assert_eq!(s.control.user_config.as_deref(), Some(&1));

    // Others are only routed, they are discarded by default.
    let verdict = s.handle(&mut validate, Incoming::ValidateConfig(Ok(decoded(2))));
    assert!(matches!(
        verdict,
        Verdict::Deliver(Outcome::Discard)
    ));
    assert_eq!(s.control.user_config.as_deref(), Some(&1));

    let mut update = envelope("elfo-core", "UpdateConfig");
    let verdict = s.handle(&mut update, Incoming::UpdateConfig(Err("bad".to_string())));
    assert!(matches!(verdict, Verdict::Reply(Err(err)) if err.reason == "bad"));
    assert!(!s.control.is_started);
}

#[test]
fn decoded_configs_are_delivered() {
    let router = MapRouter::new(|envelope: &Envelope| match envelope.message.name() {
        "Decoded" => Outcome::Unicast(1),
        _ => Outcome::Unicast(2),
    });
    let mut s = Supervisor::new(
        "group".to_string(),
        addr(100),
        router,
        RestartPolicy::never(),
        TerminationPolicy {
            stop_spawning: false,
        },
    );

    // The first config isn't routed.
    let mut validate = envelope("elfo-core", "ValidateConfig");
    s.handle(&mut validate, Incoming::ValidateConfig(Ok(decoded(1))));
    assert_eq!(validate.message.name(), "ValidateConfig");

    // Routers see decoded configs only if they are validated.
    let verdict = s.handle(&mut validate, Incoming::ValidateConfig(Ok(decoded(2))));
    assert!(matches!(verdict, Verdict::Deliver(Outcome::Unicast(1))));
    assert_eq!(validate.message.name(), "Decoded");

    let mut update = envelope("elfo-core", "UpdateConfig");
    let verdict = s.handle(&mut update, Incoming::UpdateConfig(Ok(decoded(3))));
    assert!(matches!(verdict, Verdict::Mount(Outcome::Unicast(2))));
    assert_eq!(update.message.name(), "UpdateConfig");
    let verdict = s.handle(&mut update, Incoming::UpdateConfig(Ok(decoded(4))));
    assert!(matches!(verdict, Verdict::Deliver(Outcome::Unicast(2))));
    assert_eq!(update.message.name(), "Decoded");
}

#[test]
fn messages_are_routed() {
    let mut s = supervisor();
    s.update_config(config(1));

    let verdict = s.handle(&mut envelope("test", "One"), Incoming::Other);
    assert!(matches!(
        verdict,
        Verdict::Deliver(Outcome::Unicast(1))
    ));
    let verdict = s.handle(&mut envelope("test", "Unknown"), Incoming::Other);
    assert!(matches!(
        verdict,
        Verdict::Deliver(Outcome::Discard)
    ));
    let verdict = s.handle(&mut envelope("elfo-core", "Ping"), Incoming::Ping);
    assert!(matches!(
        verdict,
        Verdict::Deliver(Outcome::Broadcast)
    ));
}

#[test]
fn actors_are_found_or_spawned() {
    let mut s = supervisor();
    s.update_config(config(1));

    assert_eq!(s.get_object(1), Lookup::Missing);
    assert_eq!(
        s.get_object_or_spawn(1, ActorStartCause::OnMessage, addr(11)),
        Lookup::Spawned(addr(11), ActorStartCause::OnMessage)
    );
    assert_eq!(s.get_object_or_spawn(1, ActorStartCause::OnMessage, addr(12)), Lookup::Found(addr(11)));
    assert_eq!(s.get_object(1), Lookup::Found(addr(11)));

    let vacant = vec![addr(21), addr(22), addr(23)];
    let lookups = s.targets(&Outcome::Multicast(vec![1, 2, 2]), &vacant);
    assert_eq!(
        lookups,
        vec![
            Lookup::Found(addr(11)),
            Lookup::Spawned(addr(22), ActorStartCause::OnMessage),
            Lookup::Found(addr(22))
        ]
    );

    // Gentle outcomes don't start actors.
    let lookups = s.targets(&Outcome::GentleMulticast(vec![1, 9]), &vec![]);
    assert_eq!(lookups, vec![Lookup::Found(addr(11)), Lookup::Missing]);
    let lookups = s.targets(&Outcome::GentleUnicast(9), &vec![]);
    assert_eq!(lookups, vec![Lookup::Missing]);
    assert!(s.targets(&Outcome::Discard, &vec![]).is_empty());

    let mut addrs: Vec<u64> = s
        .targets(&Outcome::Broadcast, &vec![])
        .iter()
        .map(|lookup| lookup.addr().unwrap().bits)
        .collect();
    addrs.sort();
    assert_eq!(addrs, vec![11, 22]);

    // A restarted actor gets a new address.
    assert_eq!(
        s.spawn(1, ActorStartCause::Restarted, addr(31)),
        Lookup::Spawned(addr(31), ActorStartCause::Restarted)
    );
    assert_eq!(s.get_object(1), Lookup::Found(addr(31)));

    assert!(s.on_removed(1));
    assert!(!s.on_removed(1));
    assert_eq!(s.finished(), vec![addr(22)]);
}

#[test]
fn actors_have_scopes() {
    let mut s = supervisor();
    let mut config = config(1);
    config.system.telemetry.per_actor_key =
        PerActorKey::replacement("([^:]*):.*".to_string(), "$1".to_string()).unwrap();
    s.update_config(config);

    let scope = s.actor_scope(TraceId::from_raw(5), addr(11), "foo:42".to_string());
    assert_eq!(scope.trace_id(), TraceId::from_raw(5));
    assert_eq!(scope.actor(), addr(11));
    assert_eq!(scope.group(), addr(100));
    assert_eq!(scope.meta().group, "group");
    assert_eq!(scope.meta().key, "foo:42");
    assert_eq!(scope.telemetry_meta().key, "foo");
    assert!(scope
        .permissions(&s.scope_shared)
        .is_telemetry_per_actor_key_enabled());

    // Later configs reach the same scope.
    s.update_config(self::config(2));
    assert!(!scope
        .permissions(&s.scope_shared)
        .is_telemetry_per_actor_key_enabled());
}

#[test]
fn routers_get_configs() {
    let router = MapRouter::with_state(
        7u32,
        |config: &u32, _state: &u32| *config,
        |_envelope: &Envelope, state: &u32| Outcome::Unicast(u64::from(*state)),
    );
    let mut s = Supervisor::new(
        "group".to_string(),
        addr(100),
        router,
        RestartPolicy::never(),
        TerminationPolicy {
            stop_spawning: false,
        },
    );

    let mut one = envelope("proto", "One");
    assert!(matches!(
        s.handle(&mut one, Incoming::Other),
        Verdict::Deliver(Outcome::Unicast(7))
    ));
    let mut validate = envelope("elfo-core", "ValidateConfig");
    assert!(matches!(
        s.handle(&mut validate, Incoming::ValidateConfig(Ok(decoded(42)))),
        Verdict::Reply(Ok(()))
    ));
    assert!(matches!(
        s.handle(&mut one, Incoming::Other),
        Verdict::Deliver(Outcome::Unicast(42))
    ));

    // The first update only starts actors, the config is already applied.
    let mut update = envelope("elfo-core", "UpdateConfig");
    assert!(matches!(
        s.handle(&mut update, Incoming::UpdateConfig(Ok(decoded(5)))),
        Verdict::Mount(Outcome::Unicast(42))
    ));
    assert!(matches!(
        s.handle(&mut update, Incoming::UpdateConfig(Ok(decoded(6)))),
        Verdict::Deliver(Outcome::Unicast(6))
    ));
}

#[test]
fn nobody_is_spawned_after_termination() {
    let mut s = supervisor();
    s.update_config(config(1));
    s.get_object_or_spawn(1, ActorStartCause::OnMessage, addr(11));

    let verdict = s.handle(&mut envelope("elfo-core", "Terminate"), Incoming::Terminate);
    assert!(matches!(
        verdict,
        Verdict::Deliver(Outcome::Broadcast)
    ));
    assert!(s.control.stop_spawning);
    assert_eq!(s.get_object_or_spawn(2, ActorStartCause::OnMessage, addr(12)), Lookup::Missing);
    assert_eq!(s.get_object_or_spawn(1, ActorStartCause::OnMessage, addr(12)), Lookup::Found(addr(11)));

    let mut backoff = RestartBackoff::new(0);
    let outcome = ExecOutcome::Panicked(None);
    let (_, delay) = s.on_exit(&outcome, None, &mut backoff, 0, Some(10));
    assert_eq!(delay, None);
}

#[test]
fn statuses_describe_exits() {
    let s = supervisor();
    let mut backoff = RestartBackoff::new(0);

    let (status, delay) = s.on_exit(&ExecOutcome::Terminated, None, &mut backoff, 0, Some(10));
    assert_eq!(status.kind, ActorStatusKind::Terminated);
    assert_eq!(status.details, None);
    assert_eq!(delay, None);

    let chain = ErrorChain {
        messages: vec!["a".to_string(), "b".to_string()],
    };
    let outcome = ExecOutcome::Failed(chain);
    let (status, delay) = s.on_exit(&outcome, None, &mut backoff, 0, Some(10));
    assert_eq!(status.kind, ActorStatusKind::Failed);
    assert_eq!(status.details.as_deref(), Some("a: b"));
    assert_eq!(delay, Some(10));

    let outcome = ExecOutcome::Panicked(Some("oops".to_string()));
    let (status, _) = s.on_exit(&outcome, None, &mut backoff, 0, Some(10));
    assert_eq!(status.details.as_deref(), Some("panic: oops"));
    assert_eq!(panic_to_string(None), "panic: <unsupported payload>");

    // The actor's policy is preferred.
    let policy = Some(RestartPolicy::never());
    let (_, delay) = s.on_exit(&outcome, policy, &mut backoff, 0, Some(10));
    assert_eq!(delay, None);
}

#[test]
fn config_overrides_policy() {
    let mut s = supervisor();
    let mut config = config(1);
    config.system.restart_policy = RestartPolicyConfig(Some(WhenConfig::Always(
        RestartParamsConfig {
            min_backoff: 3,
            max_backoff: 7,
            auto_reset: None,
            max_retries: None,
            factor: None,
        },
    )));
    s.update_config(config);

    let mut backoff = RestartBackoff::new(0);
    let (_, delay) = s.on_exit(&ExecOutcome::Terminated, None, &mut backoff, 0, Some(50));
    assert_eq!(delay, Some(7));
    assert_eq!(
        s.select_policy(Some(RestartPolicy::never())),
        RestartPolicy::never()
    );
}

#[test]
fn statuses_are_reported_once() {
    let mut s = supervisor();
    s.update_config(config(1));
    s.get_object_or_spawn(1, ActorStartCause::OnMessage, addr(11));
    let mut subscribe = envelope("elfo-core", "SubscribeToActorStatuses");
    let incoming = |forcing| Incoming::SubscribeToActorStatuses {
        sender: addr(50),
        forcing,
    };

    let verdict = s.handle(&mut subscribe, incoming(false));
    assert!(matches!(verdict, Verdict::Report(addrs) if addrs == vec![addr(11)]));
    let verdict = s.handle(&mut subscribe, incoming(false));
    assert!(matches!(verdict, Verdict::Report(addrs) if addrs.is_empty()));
    let verdict = s.handle(&mut subscribe, incoming(true));
    assert!(matches!(verdict, Verdict::Report(addrs) if addrs == vec![addr(11)]));

    s.unsubscribe(addr(50));
    assert!(s.status_subscription.subscribers.is_empty());
}

#[test]
fn unreachable_subscribers_are_removed() {
    let mut manager = SubscriptionManager::new();
    assert!(manager.add(addr(1)));
    assert!(manager.add(addr(2)));
    assert!(manager.add(addr(3)));
    assert!(!manager.add(addr(2)));

    let removed = manager.send(&vec![true, false, true, true]);
    assert_eq!(removed, vec![addr(2), addr(2)]);
    assert_eq!(manager.subscribers, vec![addr(1), addr(3)]);

    manager.remove(addr(1));
    assert_eq!(manager.subscribers, vec![addr(3)]);
}

#[test]
fn everybody_is_visited_in_order() {
    assert_eq!(visit_multiple(&vec![]), vec![VisitStep::Empty]);
    assert_eq!(
        visit_multiple(&vec![addr(1)]),
        vec![VisitStep::VisitLast(addr(1))]
    );
    assert_eq!(
        visit_multiple(&vec![addr(1), addr(2)]),
        vec![VisitStep::Visit(addr(1)), VisitStep::VisitLast(addr(2))]
    );
}

#[test]
fn outcomes_are_combined() {
    let outcome = Outcome::Multicast(vec![1, 2]).map(|x| x * 10);
    assert!(matches!(outcome, Outcome::Multicast(list) if list == vec![10, 20]));
    let outcome = Outcome::GentleUnicast(3).map(|x| x + 1);
    assert!(matches!(outcome, Outcome::GentleUnicast(4)));

    let outcome = Outcome::<u8>::Default.or(Outcome::Broadcast);
    assert!(matches!(outcome, Outcome::Broadcast));
    let outcome = Outcome::<u8>::Discard.or(Outcome::Broadcast);
    assert!(matches!(outcome, Outcome::Discard));
}

#[test]
fn singleton_is_routed() {
    let outcome = route_singleton(&envelope("test", "Some"));
    assert!(matches!(outcome, Outcome::Unicast(Singleton)));
    let outcome = route_singleton(&envelope("elfo-core", "Ping"));
    assert!(matches!(outcome, Outcome::GentleUnicast(Singleton)));
    let outcome = route_singleton(&envelope("elfo-core", "Terminate"));
    assert!(matches!(outcome, Outcome::GentleUnicast(Singleton)));
    let outcome = route_singleton(&envelope("elfo-core", "ValidateConfig"));
    assert!(matches!(outcome, Outcome::Default));
    let outcome = route_singleton(&envelope("elfo-core", "UpdateConfig"));
    assert!(matches!(outcome, Outcome::Unicast(Singleton)));
    assert_eq!(Singleton.to_string(), "_");
}

#[test]
fn router_with_state_is_updated() {
    let mut router = MapRouter::with_state(
        0u64,
        |config: &u32, state: &u64| *state + u64::from(*config),
        |_: &Envelope, state: &u64| Outcome::Unicast(*state),
    );
    router.update(&5);
    router.update(&2);
    let outcome = router.route(&envelope("test", "Some"));
    assert!(matches!(outcome, Outcome::Unicast(7)));
}
