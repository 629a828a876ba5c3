use elfo::actor::ActorMeta;
use elfo::addr::Addr;
use elfo::config::SystemConfig;
use elfo::scope::{self, ActorMemory, Scope, ScopeGroupShared};
use elfo::supervisor::measure_poll::publish_alloc_metrics;
use elfo::telemetry::config::{PerActorKey, TelemetryConfig};
use elfo::telemetry::{enter, exit, set_recorder, PollEvent, Recorder, RecorderSlot};
use elfo::tls;
use elfo::tracing::TraceId;

fn meta() -> ActorMeta {
    ActorMeta {
        group: "group".to_string(),
        key: "key:42".to_string(),
    }
}

fn scope_() -> Scope {
    Scope::new(
        TraceId::from_raw(1),
        Addr::from_bits(7),
        meta(),
        &ScopeGroupShared::new(Addr::from_bits(8)),
    )
}

#[test]
fn keys_are_replaced() {
    let key = PerActorKey::replacement("([^:]*):.*".to_string(), "$1".to_string()).unwrap();
    assert!(key.is_enabled());
    assert_eq!(key.key("foo:42"), Some("foo".to_string()));
    assert_eq!(key.key("foo"), Some("foo".to_string()));

    assert!(PerActorKey::replacement("(".to_string(), "$1".to_string()).is_err());
    assert!(PerActorKey::Bool(true).is_enabled());
    assert!(!PerActorKey::Bool(false).is_enabled());
    assert_eq!(PerActorKey::Bool(true).key("foo"), None);
    // An invalid pattern doesn't replace anything.
    let invalid = PerActorKey::Replacement("(".to_string(), "$1".to_string());
    assert_eq!(invalid.key("foo"), None);
}

#[test]
fn telemetry_meta_is_configured() {
    let mut config = TelemetryConfig::default();
    assert!(config.per_actor_group);
    let scope = scope_().with_telemetry(&config);
    assert_eq!(scope.meta().key, "key:42");
    assert_eq!(scope.telemetry_meta().key, "key:42");

    config.per_actor_key =
        PerActorKey::replacement("([^:]*):.*".to_string(), "$1".to_string()).unwrap();
    let scope = scope_().with_telemetry(&config);
    assert_eq!(scope.meta().key, "key:42");
    assert_eq!(scope.telemetry_meta().key, "key");
    assert_eq!(scope.telemetry_meta().group, "group");
}

#[test]
fn scope_is_accessible() {
    let mut scope = scope_();
    assert_eq!(scope.actor(), Addr::from_bits(7));
    assert_eq!(scope.group(), Addr::from_bits(8));
    assert_eq!(scope::trace_id(Some(&scope)), TraceId::from_raw(1));
    assert_eq!(scope::try_trace_id(None), None);
    scope::set_trace_id(Some(&mut scope), TraceId::from_raw(5));
    assert_eq!(scope::try_trace_id(Some(&scope)), Some(TraceId::from_raw(5)));
    assert!(!scope::try_set_trace_id(None, TraceId::from_raw(5)));
    assert_eq!(scope::meta(Some(&scope)).group, "group");
    assert!(scope::try_meta(None).is_none());
    assert_eq!(scope::try_with(Some(&scope), |s| s.addr()), Some(Addr::from_bits(7)));
    assert_eq!(scope::try_with(None, |s| s.addr()), None);

    let copy = scope::expose(Some(&scope));
    assert_eq!(copy.trace_id(), TraceId::from_raw(5));
    assert!(scope::try_expose(None).is_none());
    assert_eq!(copy.sync_within(|s| s.trace_id()), TraceId::from_raw(5));

    let id = tls::sync_scope(meta(), TraceId::from_raw(3), |s| s.trace_id());
    assert_eq!(id, TraceId::from_raw(3));
    assert_eq!(tls::trace_id(Some(&scope)), TraceId::from_raw(5));
}

#[test]
fn permissions_are_configured() {
    let mut shared = ScopeGroupShared::new(Addr::from_bits(8));
    let mut config = SystemConfig::default();
    config.max_log_level = Some(elfo::logging::Level::Warn);
    config.telemetry.per_actor_group = true;
    shared.configure(&config);
    let perm = shared.permissions.load();
    assert!(perm.is_logging_enabled(elfo::logging::Level::Warn));
    assert!(!perm.is_logging_enabled(elfo::logging::Level::Info));
    assert!(perm.is_telemetry_per_actor_group_enabled());
    assert!(!perm.is_telemetry_per_actor_key_enabled());
}

#[test]
fn permissions_reach_existing_scopes() {
    let mut shared = ScopeGroupShared::new(Addr::from_bits(8));
    let scope = Scope::new(TraceId::from_raw(1), Addr::from_bits(7), meta(), &shared);
    let copy = scope::expose(Some(&scope));
    assert!(!copy.permissions(&shared).is_telemetry_per_actor_group_enabled());

    let mut config = SystemConfig::default();
    config.telemetry.per_actor_group = true;
    shared.configure(&config);
    assert!(scope.permissions(&shared).is_telemetry_per_actor_group_enabled());
    assert!(copy.permissions(&shared).is_telemetry_per_actor_group_enabled());
}

#[test]
fn allocations_are_published_once() {
    let scope = scope_();
    let mut memory = ActorMemory::new(scope.actor());
    scope.increment_allocated_bytes(&mut memory, 100);
    scope.increment_allocated_bytes(&mut memory, 20);

    let metrics = publish_alloc_metrics(&scope, &mut memory);
    assert_eq!(metrics.allocated, Some(120));
    assert_eq!(metrics.deallocated, None);

    scope.increment_deallocated_bytes(&mut memory, 5);
    let metrics = publish_alloc_metrics(&scope, &mut memory);
    assert_eq!(metrics.allocated, None);
    assert_eq!(metrics.deallocated, Some(5));
}

#[test]
fn exposed_scopes_share_counters() {
    let scope = scope_();
    let mut memory = ActorMemory::new(scope.actor());
    scope.increment_allocated_bytes(&mut memory, 5);
    let copy = scope::expose(Some(&scope));
    copy.increment_allocated_bytes(&mut memory, 7);
    assert_eq!(copy.take_allocated_bytes(&mut memory), 12);
    assert_eq!(scope.take_allocated_bytes(&mut memory), 0);

    scope.increment_deallocated_bytes(&mut memory, usize::MAX);
    copy.increment_deallocated_bytes(&mut memory, 3);
    assert_eq!(scope.take_deallocated_bytes(&mut memory), 2);
}

#[derive(Default)]
struct Log(Vec<PollEvent>);

impl Recorder for Log {
    fn is_told(&self, event: PollEvent, after: &Self) -> bool {
        let mut events = self.0.clone();
        events.push(event);
        after.0 == events
    }

    fn enter(&mut self) {
        self.0.push(PollEvent::Enter);
    }

    fn exit(&mut self) {
        self.0.push(PollEvent::Exit);
    }
}

#[test]
fn recorder_is_set_once() {
    let mut slot = RecorderSlot { recorder: None };
    assert!(!enter(&mut slot));
    assert!(!exit(&mut slot));
    assert!(slot.recorder.is_none());

    assert!(set_recorder(&mut slot, Log::default()));
    assert!(enter(&mut slot));
    assert_eq!(slot.recorder.as_ref().unwrap().0, vec![PollEvent::Enter]);

    // The first recorder stays even if others try to replace it.
    assert!(!set_recorder(&mut slot, Log::default()));
    assert!(exit(&mut slot));
    assert!(enter(&mut slot));
    assert_eq!(
        slot.recorder.as_ref().unwrap().0,
        vec![PollEvent::Enter, PollEvent::Exit, PollEvent::Enter]
    );
    let told = Log(vec![PollEvent::Enter]);
    assert!(Log::default().is_told(PollEvent::Enter, &told));
    assert!(!Log::default().is_told(PollEvent::Exit, &told));
}
