//! Former names of functions that access the current scope.

use vstd::prelude::*;

use crate::actor::ActorMeta;
use crate::addr::Addr;
use crate::scope::{Scope, ScopeGroupShared};
use crate::tracing::TraceId;

verus! {

/// Use [`crate::scope::trace_id`] instead.
pub fn trace_id(current: Option<&Scope>) -> (trace_id: TraceId)
    requires
        current is Some,
    ensures
        trace_id == current->0.trace_id,
{
    crate::scope::trace_id(current)
}

/// Use [`crate::scope::try_trace_id`] instead.
pub fn try_trace_id(current: Option<&Scope>) -> (res: Option<TraceId>)
    ensures
        res == (match current {
            Some(scope) => Some(scope.trace_id),
            None => None,
        }),
{
    crate::scope::try_trace_id(current)
}

/// Use [`crate::scope::set_trace_id`] instead.
pub fn set_trace_id(current: Option<&mut Scope>, trace_id: TraceId)
    requires
        current is Some,
    ensures
        *final(current->0) == (Scope { trace_id, ..*current->0 }),
{
    crate::scope::set_trace_id(current, trace_id)
}

/// Use [`crate::scope::meta`] instead.
pub fn meta(current: Option<&Scope>) -> (meta: ActorMeta)
    requires
        current is Some,
    ensures
        meta == current->0.actor.meta,
{
    crate::scope::meta(current)
}

/// Use [`crate::scope::try_meta`] instead.
pub fn try_meta(current: Option<&Scope>) -> (res: Option<ActorMeta>)
    ensures
        res == (match current {
            Some(scope) => Some(scope.actor.meta),
            None => None,
        }),
{
    crate::scope::try_meta(current)
}

/// The scope of an actor without addresses.
pub open spec fn is_stupid_scope(scope: Scope, meta: ActorMeta, trace_id: TraceId) -> bool {
    &&& scope.trace_id == trace_id
    &&& scope.actor.addr == Addr::spec_null()
    &&& scope.actor.meta == meta
    &&& scope.actor.telemetry_meta == meta
    &&& scope.group == Addr::spec_null()
}

/// Use [`crate::scope`] instead.
pub fn sync_scope<R, F: FnOnce(&Scope) -> R>(meta: ActorMeta, trace_id: TraceId, f: F) -> (res: R)
    requires
        forall|scope: Scope| is_stupid_scope(scope, meta, trace_id) ==> #[trigger] call_requires(
            f,
            (&scope,),
        ),
    ensures
        exists|scope: Scope| is_stupid_scope(scope, meta, trace_id) && #[trigger] call_ensures(
            f,
            (&scope,),
            res,
        ),
{
    let scope = make_stupid_scope(meta, trace_id);
    scope.sync_within(f)
}

pub fn make_stupid_scope(meta: ActorMeta, trace_id: TraceId) -> (scope: Scope)
    ensures
        is_stupid_scope(scope, meta, trace_id),
{
    Scope::new(trace_id, Addr::null(), meta, &ScopeGroupShared::new(Addr::null()))
}

// === Laws ===

/// Former names give the same as what the current scope holds.
pub proof fn former_names_read_scope(
    scope: Scope,
    a: TraceId,
    b: Option<TraceId>,
    c: Option<TraceId>,
    d: ActorMeta,
    e: Option<ActorMeta>,
    f: Option<ActorMeta>,
)
    requires
        call_ensures(trace_id, (Some(&scope),), a),
        call_ensures(try_trace_id, (Some(&scope),), b),
        call_ensures(try_trace_id, (None,), c),
        call_ensures(meta, (Some(&scope),), d),
        call_ensures(try_meta, (Some(&scope),), e),
        call_ensures(try_meta, (None,), f),
    ensures
        a == scope.trace_id && b == Some(scope.trace_id) && c is None,
        d == scope.actor.meta && e == Some(scope.actor.meta) && f is None,
{
}

/// A scope without an actor has the given meta and trace, and no addresses.
pub proof fn scope_without_actor(meta: ActorMeta, trace_id: TraceId, scope: Scope)
    requires
        call_ensures(make_stupid_scope, (meta, trace_id), scope),
    ensures
        scope.trace_id == trace_id,
        scope.actor.meta == meta && scope.actor.telemetry_meta == meta,
        scope.actor.addr.bits == 0 && scope.group.bits == 0,
{
}

/// The trace of the current scope is replaced by its former name, too.
pub proof fn former_name_replaces_trace(scope: &mut Scope, trace_id: TraceId)
    requires
        call_ensures(set_trace_id, (Some(scope), trace_id), ()),
    ensures
        final(scope).trace_id == trace_id,
        final(scope).actor == old(scope).actor && final(scope).group == old(scope).group,
{
}

/// A function is called in a scope with the given trace and meta, but without an address.
pub proof fn function_is_called_in_scope<R, F: FnOnce(&Scope) -> R>(
    meta: ActorMeta,
    trace_id: TraceId,
    f: F,
    res: R,
)
    requires
        call_ensures(sync_scope::<R, F>, (meta, trace_id, f), res),
    ensures
        exists|scope: Scope| #[trigger]
            call_ensures(f, (&scope,), res) && scope.trace_id == trace_id && scope.actor.meta
                == meta && scope.actor.addr == Addr::spec_null() && scope.group
                == Addr::spec_null(),
{
}

} // verus!
