//! Settings of tasks that are spawned by actors.

use vstd::prelude::*;

use crate::scope::{self, Scope};

verus! {

/// A factory which is used to configure the properties of a new task.
#[derive(Debug)]
pub struct Builder {
    pub scope: Scope,
}

impl Builder {
    /// Creates a new task builder with the provided scope.
    pub fn new(scope: Scope) -> (this: Builder)
        ensures
            this.scope == scope,
    {
        Builder { scope }
    }

    /// Creates a new task builder with the current scope.
    /// It must be called inside the actor system.
    pub fn current(current: Option<&Scope>) -> (this: Builder)
        requires
            current is Some,
        ensures
            current->0.is_copied_to(this.scope),
    {
        Builder::new(scope::expose(current))
    }
}

// === Laws ===

/// A task runs in the given scope, in a copy of the current one by default.
pub proof fn task_inherits_scope(scope: Scope, a: Builder, b: Builder)
    requires
        call_ensures(Builder::new, (scope,), a),
        call_ensures(Builder::current, (Some(&scope),), b),
    ensures
        a.scope == scope,
        b.scope.trace_id == scope.trace_id,
        b.scope.actor == scope.actor,
        b.scope.group == scope.group,
{
}

} // verus!
