//! What an actor's code knows about the actor it belongs to.

use vstd::prelude::*;

use crate::actor::ActorMeta;
use crate::addr::Addr;
use crate::config::SystemConfig;
use crate::{dumping, logging};
use crate::permissions::{
    dump_filter_value, log_level_value, AtomicPermissions, Permissions, DUMPING_CLASSES,
};
use crate::telemetry::config::{PerActorKey, TelemetryConfig};
use crate::tracing::TraceId;

verus! {

// === Scope ===

/// Copies of a scope belong to the same actor: they have no counters of memory
/// and no permissions of their own, see [`ActorMemory`] and [`ScopeGroupShared`].
#[derive(Debug)]
pub struct Scope {
    pub trace_id: TraceId,
    pub actor: ScopeActorShared,
    /// The address of the group.
    pub group: Addr,
}

impl Scope {
    /// A scope for tests, `trace_id` is a generated one.
    pub fn test(trace_id: TraceId, actor: Addr, meta: ActorMeta) -> (this: Scope)
        ensures
            this.trace_id == trace_id,
            this.actor.addr == actor,
            this.actor.meta == meta,
            this.actor.telemetry_meta == meta,
            this.group == Addr::null(),
    {
        Scope::new(trace_id, actor, meta, &ScopeGroupShared::new(Addr::null()))
    }

    pub fn new(trace_id: TraceId, addr: Addr, meta: ActorMeta, group: &ScopeGroupShared) -> (this:
        Scope)
        ensures
            this.trace_id == trace_id,
            this.actor.addr == addr,
            this.actor.meta == meta,
            this.actor.telemetry_meta == meta,
            this.group == group.addr,
    {
        Scope { trace_id, actor: ScopeActorShared::new(addr, meta), group: group.addr }
    }

    /// Uses keys of metrics that are described by the config.
    pub fn with_telemetry(self, config: &TelemetryConfig) -> (this: Scope)
        ensures
            this.trace_id == self.trace_id,
            this.group == self.group,
            self.actor.is_with_telemetry(*config, this.actor),
    {
        Scope {
            trace_id: self.trace_id,
            actor: self.actor.with_telemetry(config),
            group: self.group,
        }
    }

    /// Makes a copy for another task.
    pub fn duplicate(&self) -> (copy: Scope)
        ensures
            self.is_copied_to(copy),
    {
        Scope {
            trace_id: self.trace_id,
            actor: ScopeActorShared {
                addr: self.actor.addr,
                meta: self.actor.meta.duplicate(),
                telemetry_meta: self.actor.telemetry_meta.duplicate(),
            },
            group: self.group,
        }
    }

    pub open spec fn is_copied_to(&self, copy: Scope) -> bool {
        &&& copy.trace_id == self.trace_id
        &&& copy.actor.addr == self.actor.addr
        &&& copy.actor.meta == self.actor.meta
        &&& copy.actor.telemetry_meta == self.actor.telemetry_meta
        &&& copy.group == self.group
    }

    /// The same as [`Scope::actor`].
    pub fn addr(&self) -> (addr: Addr)
        ensures
            addr == self.actor.addr,
    {
        self.actor()
    }

    pub fn actor(&self) -> (addr: Addr)
        ensures
            addr == self.actor.addr,
    {
        self.actor.addr
    }

    pub fn group(&self) -> (addr: Addr)
        ensures
            addr == self.group,
    {
        self.group
    }

    /// Returns the current object's meta.
    pub fn meta(&self) -> (meta: &ActorMeta)
        ensures
            *meta == self.actor.meta,
    {
        &self.actor.meta
    }

    /// Returns the meta that metrics are produced with.
    pub fn telemetry_meta(&self) -> (meta: &ActorMeta)
        ensures
            *meta == self.actor.telemetry_meta,
    {
        &self.actor.telemetry_meta
    }

    /// Returns the current trace id.
    pub fn trace_id(&self) -> (trace_id: TraceId)
        ensures
            trace_id == self.trace_id,
    {
        self.trace_id
    }

    /// Replaces the current trace id with the provided one.
    pub fn set_trace_id(&mut self, trace_id: TraceId)
        ensures
            *final(self) == (Scope { trace_id, ..*old(self) }),
    {
        self.trace_id = trace_id;
    }

    /// Returns the current permissions (for logging, telemetry and so on), they
    /// are shared by all actors of the group.
    pub fn permissions(&self, group: &ScopeGroupShared) -> (perm: Permissions)
        requires
            group.addr == self.group,
        ensures
            perm == group.permissions.cell,
    {
        group.permissions.load()
    }

    pub fn increment_allocated_bytes(&self, memory: &mut ActorMemory, by: usize)
        requires
            old(memory).actor == self.actor.addr,
        ensures
            *final(memory) == old(memory).with_allocated(by),
    {
        memory.allocated_bytes = memory.allocated_bytes.wrapping_add(by);
    }

    pub fn increment_deallocated_bytes(&self, memory: &mut ActorMemory, by: usize)
        requires
            old(memory).actor == self.actor.addr,
        ensures
            *final(memory) == old(memory).with_deallocated(by),
    {
        memory.deallocated_bytes = memory.deallocated_bytes.wrapping_add(by);
    }

    /// Returns how many bytes have been allocated since the last call.
    pub fn take_allocated_bytes(&self, memory: &mut ActorMemory) -> (bytes: usize)
        requires
            old(memory).actor == self.actor.addr,
        ensures
            bytes == old(memory).allocated_bytes,
            *final(memory) == (ActorMemory { allocated_bytes: 0, ..*old(memory) }),
    {
        let bytes: usize = memory.allocated_bytes;
        memory.allocated_bytes = 0;
        bytes
    }

    /// Returns how many bytes have been deallocated since the last call.
    pub fn take_deallocated_bytes(&self, memory: &mut ActorMemory) -> (bytes: usize)
        requires
            old(memory).actor == self.actor.addr,
        ensures
            bytes == old(memory).deallocated_bytes,
            *final(memory) == (ActorMemory { deallocated_bytes: 0, ..*old(memory) }),
    {
        let bytes: usize = memory.deallocated_bytes;
        memory.deallocated_bytes = 0;
        bytes
    }

    /// Runs the provided function with the current scope.
    pub fn sync_within<R, F: FnOnce(&Scope) -> R>(self, f: F) -> (res: R)
        requires
            call_requires(f, (&self,)),
        ensures
            call_ensures(f, (&self,), res),
    {
        f(&self)
    }
}

/// The sum of counters, overflowed ones start from zero.
pub open spec fn wrapping_sum(a: usize, b: usize) -> int {
    if a + b > usize::MAX {
        a + b - usize::MAX - 1
    } else {
        a + b
    }
}

/// Counters of memory, one for all scopes of an actor.
#[derive(Debug)]
pub struct ActorMemory {
    pub actor: Addr,
    pub allocated_bytes: usize,
    pub deallocated_bytes: usize,
}

impl ActorMemory {
    pub fn new(actor: Addr) -> (this: ActorMemory)
        ensures
            this == (ActorMemory { actor, allocated_bytes: 0, deallocated_bytes: 0 }),
    {
        ActorMemory { actor, allocated_bytes: 0, deallocated_bytes: 0 }
    }

    pub open spec fn with_allocated(self, by: usize) -> ActorMemory {
        ActorMemory { allocated_bytes: wrapping_sum(self.allocated_bytes, by) as usize, ..self }
    }

    pub open spec fn with_deallocated(self, by: usize) -> ActorMemory {
        ActorMemory { deallocated_bytes: wrapping_sum(self.deallocated_bytes, by) as usize, ..self }
    }
}

#[derive(Debug)]
pub struct ScopeActorShared {
    pub addr: Addr,
    pub meta: ActorMeta,
    pub telemetry_meta: ActorMeta,
}

impl ScopeActorShared {
    pub fn new(addr: Addr, meta: ActorMeta) -> (this: ScopeActorShared)
        ensures
            this.addr == addr,
            this.meta == meta,
            this.telemetry_meta == meta,
    {
        ScopeActorShared { addr, telemetry_meta: meta.duplicate(), meta }
    }

    /// Whether `other` produces metrics with the key that is described by the
    /// config.
    pub open spec fn is_with_telemetry(
        &self,
        config: TelemetryConfig,
        other: ScopeActorShared,
    ) -> bool {
        &&& other.addr == self.addr
        &&& other.meta == self.meta
        &&& match config.per_actor_key.spec_key(self.meta.key@) {
            Some(key) => {
                &&& other.telemetry_meta.group == self.meta.group
                &&& other.telemetry_meta.key@ == key
            },
            None => other.telemetry_meta == self.meta,
        }
    }

    pub fn with_telemetry(&self, config: &TelemetryConfig) -> (this: ScopeActorShared)
        ensures
            self.is_with_telemetry(*config, this),
    {
        let telemetry_meta = match config.per_actor_key.key(self.meta.key.as_str()) {
            Some(key) => ActorMeta { group: self.meta.group.clone(), key },
            None => self.meta.duplicate(),
        };
        ScopeActorShared { addr: self.addr, meta: self.meta.duplicate(), telemetry_meta }
    }
}

/// What is shared by all actors of a group.
#[derive(Debug)]
pub struct ScopeGroupShared {
    pub addr: Addr,
    pub permissions: AtomicPermissions,
}

impl ScopeGroupShared {
    /// Everything is disabled until it's configured.
    pub fn new(addr: Addr) -> (this: ScopeGroupShared)
        ensures
            this.addr == addr,
            this.permissions.cell.bits == 0,
    {
        ScopeGroupShared { addr, permissions: AtomicPermissions::default() }
    }

    /// Whether permissions are what the config allows.
    pub open spec fn is_configured(&self, config: SystemConfig) -> bool {
        let perm = self.permissions.cell;
        &&& forall|level: crate::logging::Level| #[trigger]
            perm.logs(level) == match config.max_log_level {
                Some(max_level) => log_level_value(level) >= log_level_value(max_level),
                None => false,
            }
        &&& forall|class_no: int|
            0 <= class_no < DUMPING_CLASSES ==> #[trigger] perm.dump_limit(class_no)
                == dump_filter_value(
                if config.dumping_disabled {
                    None
                } else {
                    Some(dumping::Level::Total)
                },
            )
        &&& perm.measures_per_group() == config.telemetry.per_actor_group
        &&& perm.measures_per_key() == config.telemetry.per_actor_key.spec_is_enabled()
    }

    pub fn configure(&mut self, config: &SystemConfig)
        ensures
            final(self).addr == old(self).addr,
            final(self).is_configured(*config),
    {
        let mut perm = self.permissions.load();
        perm.set_logging_enabled(config.max_log_level);
        let ghost with_logging = perm;
        let default = if config.dumping_disabled {
            None
        } else {
            Some(dumping::Level::Total)
        };
        perm.set_dumping_enabled(default, Vec::new());
        let ghost with_dumping = perm;
        perm.set_telemetry_per_actor_group_enabled(config.telemetry.per_actor_group);
        let ghost with_group = perm;
        perm.set_telemetry_per_actor_key_enabled(config.telemetry.per_actor_key.is_enabled());
        proof {
            crate::permissions::settings_are_independent(with_dumping, with_logging);
            crate::permissions::settings_are_independent(with_group, with_dumping);
            crate::permissions::settings_are_independent(perm, with_group);
            assert forall|level: crate::logging::Level| #[trigger] perm.logs(level)
                == with_logging.logs(level) by {
                assert(with_group.logs(level) == with_dumping.logs(level));
                assert(with_dumping.logs(level) == with_logging.logs(level));
            }
            assert forall|class_no: int|
                0 <= class_no < DUMPING_CLASSES implies #[trigger] perm.dump_limit(class_no)
                == with_dumping.dump_limit(class_no) by {
                assert(with_group.dump_limit(class_no) == with_dumping.dump_limit(class_no));
            }
        }
        self.permissions.store(perm);
    }
}

// === Access to the current scope ===

/// Exposes the current scope in order to send to other tasks.
/// It must be called inside the actor system.
pub fn expose(current: Option<&Scope>) -> (scope: Scope)
    requires
        current is Some,
    ensures
        current->0.is_copied_to(scope),
{
    current.unwrap().duplicate()
}

/// Exposes the current scope if inside the actor system.
pub fn try_expose(current: Option<&Scope>) -> (res: Option<Scope>)
    ensures
        res is Some <==> current is Some,
        res matches Some(scope) ==> current->0.is_copied_to(scope),
{
    match current {
        Some(scope) => Some(scope.duplicate()),
        None => None,
    }
}

/// Accesses the current scope and runs the provided closure.
/// It must be called inside the actor system.
pub fn with<R, F: FnOnce(&Scope) -> R>(current: Option<&Scope>, f: F) -> (res: R)
    requires
        current is Some,
        call_requires(f, (current->0,)),
    ensures
        call_ensures(f, (current->0,), res),
{
    f(current.unwrap())
}

/// Accesses the current scope and runs the provided closure.
///
/// Returns `None` if called outside the actor system.
pub fn try_with<R, F: FnOnce(&Scope) -> R>(current: Option<&Scope>, f: F) -> (res: Option<R>)
    requires
        current matches Some(scope) ==> call_requires(f, (scope,)),
    ensures
        res is Some <==> current is Some,
        res matches Some(value) ==> call_ensures(f, (current->0,), value),
{
    match current {
        Some(scope) => Some(f(scope)),
        None => None,
    }
}

/// Returns the current trace id.
/// It must be called inside the actor system.
pub fn trace_id(current: Option<&Scope>) -> (trace_id: TraceId)
    requires
        current is Some,
    ensures
        trace_id == current->0.trace_id,
{
    current.unwrap().trace_id()
}

/// Returns the current trace id if inside the actor system.
pub fn try_trace_id(current: Option<&Scope>) -> (res: Option<TraceId>)
    ensures
        res == (match current {
            Some(scope) => Some(scope.trace_id),
            None => None,
        }),
{
    match current {
        Some(scope) => Some(scope.trace_id()),
        None => None,
    }
}

/// Replaces the current trace id with the provided one.
/// It must be called inside the actor system.
pub fn set_trace_id(current: Option<&mut Scope>, trace_id: TraceId)
    requires
        current is Some,
    ensures
        *final(current->0) == (Scope { trace_id, ..*current->0 }),
{
    current.unwrap().set_trace_id(trace_id)
}

/// Replaces the current trace id with the provided one
/// if inside the actor system.
///
/// Returns `true` if the trace id has been replaced.
pub fn try_set_trace_id(current: Option<&mut Scope>, trace_id: TraceId) -> (res: bool)
    ensures
        res == (current is Some),
        current matches Some(scope) ==> *final(scope) == (Scope { trace_id, ..*scope }),
{
    match current {
        Some(scope) => {
            scope.set_trace_id(trace_id);
            true
        },
        None => false,
    }
}

/// Returns the current object's meta.
/// It must be called inside the actor system.
pub fn meta(current: Option<&Scope>) -> (meta: ActorMeta)
    requires
        current is Some,
    ensures
        meta == current->0.actor.meta,
{
    current.unwrap().meta().duplicate()
}

/// Returns the current object's meta if inside the actor system.
pub fn try_meta(current: Option<&Scope>) -> (res: Option<ActorMeta>)
    ensures
        res == (match current {
            Some(scope) => Some(scope.actor.meta),
            None => None,
        }),
{
    match current {
        Some(scope) => Some(scope.meta().duplicate()),
        None => None,
    }
}

// === SerdeMode ===

/// A mode of (de)serialization.
/// Useful to alternate a behavior depending on a context.
#[derive(Debug, Clone, Copy, PartialEq, Eq, Structural, Hash)]
pub enum SerdeMode {
    /// A default mode, regular ser/de calls.
    Normal,
    /// Serialzation for dumping purposes.
    Dumping,
    /// Serialization for network purposes.
    Network,
}

/// Runs the function with the specified serde mode. The current one isn't
/// touched, so it's the same afterwards even if the function never returns.
#[allow(unused_variables)]
pub fn with_serde_mode<R, F: FnOnce(&SerdeMode) -> R>(
    current: &mut SerdeMode,
    mode: SerdeMode,
    f: F,
) -> (res: R)
    requires
        call_requires(f, (&mode,)),
    ensures
        call_ensures(f, (&mode,), res),
        *final(current) == *old(current),
{
    f(&mode)
}

/// Returns the current serde mode.
pub fn serde_mode(current: &SerdeMode) -> (mode: SerdeMode)
    ensures
        mode == *current,
{
    *current
}

// === Laws ===

/// Bytes are counted in the same place whichever copy of a scope is used, so
/// nothing is counted twice and nothing is missed.
pub proof fn copies_share_memory(
    scope: Scope,
    copy: Scope,
    memory: ActorMemory,
    first: usize,
    second: usize,
)
    requires
        scope.is_copied_to(copy),
        memory.allocated_bytes + first + second <= usize::MAX,
        memory.deallocated_bytes + first + second <= usize::MAX,
    ensures
        memory.actor == scope.actor.addr <==> memory.actor == copy.actor.addr,
        memory.with_allocated(first).with_allocated(second).allocated_bytes
            == memory.allocated_bytes + first + second,
        memory.with_deallocated(first).with_deallocated(second).deallocated_bytes
            == memory.deallocated_bytes + first + second,
{
}

/// Permissions of a group are what its config allows.
pub proof fn config_sets_permissions(
    group: &mut ScopeGroupShared,
    config: SystemConfig,
    scope: Scope,
    perm: Permissions,
    level: logging::Level,
    class_no: u8,
    dump_level: dumping::Level,
    logs: bool,
    dumps: bool,
    per_group: bool,
    per_key: bool,
    is_keywise: bool,
)
    requires
        class_no < 24,
        call_ensures(ScopeGroupShared::configure, (group, &config), ()),
        call_ensures(Scope::permissions, (&scope, final(group)), perm),
        call_ensures(Permissions::is_logging_enabled, (&perm, level), logs),
        call_ensures(Permissions::is_dumping_enabled, (&perm, class_no, dump_level), dumps),
        call_ensures(Permissions::is_telemetry_per_actor_group_enabled, (&perm,), per_group),
        call_ensures(Permissions::is_telemetry_per_actor_key_enabled, (&perm,), per_key),
        call_ensures(PerActorKey::is_enabled, (&config.telemetry.per_actor_key,), is_keywise),
    ensures
        final(group).addr == old(group).addr,
        config.max_log_level is None ==> !logs,
        config.max_log_level == Some(level) ==> logs,
        level is Error && config.max_log_level is Some ==> logs,
        level is Trace && config.max_log_level != Some(logging::Level::Trace) ==> !logs,
        config.max_log_level == Some(logging::Level::Info) ==> (logs <==> !(level is Trace
            || level is Debug)),
        dumps <==> !config.dumping_disabled && !(dump_level is Never),
        per_group == config.telemetry.per_actor_group,
        per_key == is_keywise,
{
    assert(final(group).permissions.cell.logs(level) == match config.max_log_level {
        Some(max_level) => log_level_value(level) >= log_level_value(max_level),
        None => false,
    });
    assert(final(group).permissions.cell.dump_limit(class_no as int) == dump_filter_value(
        if config.dumping_disabled {
            None
        } else {
            Some(dumping::Level::Total)
        },
    ));
}

/// A new group allows nothing, and a new scope is what it's made of. Metrics have the
/// meta of the actor by default.
pub proof fn scope_is_what_it_is_made_of(
    trace_id: TraceId,
    addr: Addr,
    meta: ActorMeta,
    group_addr: Addr,
    group: ScopeGroupShared,
    scope: Scope,
    test: Scope,
    a: Addr,
    b: Addr,
    c: Addr,
    d: TraceId,
    e: &ActorMeta,
    f: &ActorMeta,
)
    requires
        call_ensures(ScopeGroupShared::new, (group_addr,), group),
        call_ensures(Scope::new, (trace_id, addr, meta, &group), scope),
        call_ensures(Scope::test, (trace_id, addr, meta), test),
        call_ensures(Scope::addr, (&scope,), a),
        call_ensures(Scope::actor, (&scope,), b),
        call_ensures(Scope::group, (&scope,), c),
        call_ensures(Scope::trace_id, (&scope,), d),
        call_ensures(Scope::meta, (&scope,), e),
        call_ensures(Scope::telemetry_meta, (&scope,), f),
    ensures
        group.addr == group_addr && group.permissions.cell.bits == 0,
        a == addr && b == addr && c == group_addr && d == trace_id,
        *e == meta && *f == meta,
        test.trace_id == trace_id && test.actor.addr == addr && test.actor.meta == meta
            && test.group.bits == 0,
{
}

/// Metrics of actors are combined by keys that the config gives, the rest stays. If it
/// gives no key, the one of the actor is used.
pub proof fn telemetry_key_is_given_by_config(
    scope: Scope,
    config: TelemetryConfig,
    actor_key: &str,
    key: Option<String>,
    res: Scope,
)
    requires
        actor_key@ == scope.actor.meta.key@,
        call_ensures(PerActorKey::key, (&config.per_actor_key, actor_key), key),
        call_ensures(Scope::with_telemetry, (scope, &config), res),
    ensures
        res.trace_id == scope.trace_id && res.group == scope.group,
        res.actor.addr == scope.actor.addr && res.actor.meta == scope.actor.meta,
        res.actor.telemetry_meta.group@ == scope.actor.meta.group@,
        key is Some ==> res.actor.telemetry_meta.key@ == key->0@,
        key is None ==> res.actor.telemetry_meta.key@ == scope.actor.meta.key@,
{
}

/// A copy of a scope is the same, and inside the actor system there is always one.
pub proof fn exposed_scope_is_same(
    scope: Scope,
    a: Scope,
    b: Scope,
    c: Option<Scope>,
    d: Option<Scope>,
)
    requires
        call_ensures(Scope::duplicate, (&scope,), a),
        call_ensures(expose, (Some(&scope),), b),
        call_ensures(try_expose, (Some(&scope),), c),
        call_ensures(try_expose, (None,), d),
    ensures
        a == scope && b == scope && c == Some(scope),
        d is None,
{
}

/// Only the trace is replaced.
pub proof fn only_trace_is_replaced(scope: &mut Scope, trace_id: TraceId)
    requires
        call_ensures(Scope::set_trace_id, (scope, trace_id), ()),
    ensures
        final(scope).trace_id == trace_id,
        final(scope).actor == old(scope).actor,
        final(scope).group == old(scope).group,
{
}

/// What the current scope holds is available only inside the actor system.
pub proof fn current_scope_is_read(
    scope: Scope,
    a: TraceId,
    b: Option<TraceId>,
    c: Option<TraceId>,
    d: ActorMeta,
    e: Option<ActorMeta>,
    f: Option<ActorMeta>,
)
    requires
        call_ensures(trace_id, (Some(&scope),), a),
        call_ensures(try_trace_id, (Some(&scope),), b),
        call_ensures(try_trace_id, (None,), c),
        call_ensures(meta, (Some(&scope),), d),
        call_ensures(try_meta, (Some(&scope),), e),
        call_ensures(try_meta, (None,), f),
    ensures
        a == scope.trace_id && b == Some(scope.trace_id) && c is None,
        d == scope.actor.meta && e == Some(scope.actor.meta) && f is None,
{
}

/// Bytes are counted until they are taken, and taken only once. Allocated and
/// deallocated ones are counted apart.
pub proof fn bytes_are_taken_once(
    scope: Scope,
    fresh: ActorMemory,
    a: &mut ActorMemory,
    b: &mut ActorMemory,
    c: &mut ActorMemory,
    d: &mut ActorMemory,
    e: &mut ActorMemory,
    allocated: usize,
    deallocated: usize,
    x: usize,
    y: usize,
    z: usize,
)
    requires
        call_ensures(ActorMemory::new, (scope.actor.addr,), fresh),
        *old(b) == *final(a) && *old(c) == *final(b) && *old(d) == *final(c) && *old(e) == *final(d),
        call_ensures(Scope::increment_allocated_bytes, (&scope, a, allocated), ()),
        call_ensures(Scope::increment_deallocated_bytes, (&scope, b, deallocated), ()),
        call_ensures(Scope::take_allocated_bytes, (&scope, c), x),
        call_ensures(Scope::take_deallocated_bytes, (&scope, d), y),
        call_ensures(Scope::take_allocated_bytes, (&scope, e), z),
    ensures
        fresh.actor == scope.actor.addr && fresh.allocated_bytes == 0 && fresh.deallocated_bytes
            == 0,
        old(a).allocated_bytes + allocated <= usize::MAX ==> x == old(a).allocated_bytes
            + allocated,
        old(a).allocated_bytes + allocated > usize::MAX ==> x == old(a).allocated_bytes + allocated
            - usize::MAX - 1,
        old(a).deallocated_bytes + deallocated <= usize::MAX ==> y == old(a).deallocated_bytes
            + deallocated,
        old(a).deallocated_bytes + deallocated > usize::MAX ==> y == old(a).deallocated_bytes
            + deallocated - usize::MAX - 1,
        z == 0,
        final(d).deallocated_bytes == 0 && final(d).actor == old(a).actor,
{
}

/// A function is run with the current scope exactly as it is, and its result is
/// returned. Outside the actor system it isn't run at all.
pub proof fn function_gets_current_scope<R, F: FnOnce(&Scope) -> R>(
    scope: Scope,
    f: F,
    a: R,
    b: Option<R>,
    c: Option<R>,
    d: R,
)
    requires
        call_ensures(with::<R, F>, (Some(&scope), f), a),
        call_ensures(try_with::<R, F>, (Some(&scope), f), b),
        call_ensures(try_with::<R, F>, (None, f), c),
        call_ensures(Scope::sync_within::<R, F>, (scope, f), d),
    ensures
        call_ensures(f, (&scope,), a),
        b is Some && call_ensures(f, (&scope,), b->0),
        c is None,
        call_ensures(f, (&scope,), d),
{
}

/// A function is run with the given mode, and the current one stays.
pub proof fn serde_mode_is_restored<R, F: FnOnce(&SerdeMode) -> R>(
    current: &mut SerdeMode,
    mode: SerdeMode,
    f: F,
    res: R,
    before: SerdeMode,
    after: SerdeMode,
)
    requires
        call_ensures(with_serde_mode::<R, F>, (current, mode, f), res),
        call_ensures(serde_mode, (old(current),), before),
        call_ensures(serde_mode, (final(current),), after),
    ensures
        call_ensures(f, (&mode,), res),
        before == *old(current) && after == before,
{
}

/// What is shared by scopes of an actor: its address and meta, and the meta of its metrics.
pub proof fn actor_is_shared_by_scopes(
    addr: Addr,
    meta: ActorMeta,
    shared: ScopeActorShared,
    config: TelemetryConfig,
    actor_key: &str,
    key: Option<String>,
    with: ScopeActorShared,
)
    requires
        call_ensures(ScopeActorShared::new, (addr, meta), shared),
        actor_key@ == meta.key@,
        call_ensures(PerActorKey::key, (&config.per_actor_key, actor_key), key),
        call_ensures(ScopeActorShared::with_telemetry, (&shared, &config), with),
    ensures
        shared.addr == addr && shared.meta == meta && shared.telemetry_meta == meta,
        with.addr == addr && with.meta == meta && with.telemetry_meta.group@ == meta.group@,
        key is Some ==> with.telemetry_meta.key@ == key->0@,
        key is None ==> with.telemetry_meta.key@ == meta.key@,
{
}

/// The trace of the current scope is replaced if there is one.
pub proof fn current_trace_is_replaced(
    a: &mut Scope,
    b: &mut Scope,
    trace_id: TraceId,
    inside: bool,
    outside: bool,
)
    requires
        call_ensures(set_trace_id, (Some(a), trace_id), ()),
        call_ensures(try_set_trace_id, (Some(b), trace_id), inside),
        call_ensures(try_set_trace_id, (None, trace_id), outside),
    ensures
        inside && !outside,
        final(a).trace_id == trace_id && final(a).actor == old(a).actor && final(a).group == old(a).group,
        final(b).trace_id == trace_id && final(b).actor == old(b).actor && final(b).group == old(b).group,
{
}

/// A scope for tests belongs to no group, its metrics have the meta of the actor.
pub proof fn test_scope_has_no_group(trace_id: TraceId, actor: Addr, meta: ActorMeta, scope: Scope)
    requires
        call_ensures(Scope::test, (trace_id, actor, meta), scope),
    ensures
        scope.trace_id == trace_id && scope.group.bits == 0,
        scope.actor.addr == actor && scope.actor.meta == meta && scope.actor.telemetry_meta
            == meta,
{
}

} // verus!
