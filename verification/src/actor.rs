//! What is known about an actor.

use vstd::prelude::*;

verus! {

/// The identity of an actor.
#[derive(Debug, PartialEq, Eq, Hash)]
pub struct ActorMeta {
    pub group: String,
    pub key: String,
}

impl ActorMeta {
    /// Makes a copy.
    pub fn duplicate(&self) -> (copy: ActorMeta)
        ensures
            copy == *self,
    {
        ActorMeta { group: self.group.clone(), key: self.key.clone() }
    }
}

/// What an actor is doing.
#[derive(Debug, Clone, Copy, PartialEq, Eq, Structural, Hash)]
pub enum ActorStatusKind {
    Normal,
    Initializing,
    Terminating,
    Terminated,
    Alarming,
    Failed,
}

/// What an actor is doing, with optional details.
#[derive(Debug)]
pub struct ActorStatus {
    pub kind: ActorStatusKind,
    pub details: Option<String>,
}

impl ActorStatus {
    pub fn new(kind: ActorStatusKind, details: Option<String>) -> (this: ActorStatus)
        ensures
            this.kind == kind,
            this.details == details,
    {
        ActorStatus { kind, details }
    }

    pub open spec fn spec_is_failed(&self) -> bool {
        self.kind is Failed
    }

    pub fn is_failed(&self) -> (res: bool)
        ensures
            res == self.spec_is_failed(),
    {
        match self.kind {
            ActorStatusKind::Failed => true,
            _ => false,
        }
    }
}

/// Why an actor is started.
#[derive(Debug, Clone, Copy, PartialEq, Eq, Structural, Hash)]
pub enum ActorStartCause {
    GroupMounted,
    OnMessage,
    Restarted,
}

impl ActorStartCause {
    pub fn is_restarted(&self) -> (res: bool)
        ensures
            res == (*self is Restarted),
    {
        match self {
            ActorStartCause::Restarted => true,
            _ => false,
        }
    }
}

// === Laws ===

/// Only failed actors are failed, and only restarted ones are restarted.
pub proof fn statuses_are_told_apart(
    kind: ActorStatusKind,
    details: Option<String>,
    status: ActorStatus,
    failed: bool,
    cause: ActorStartCause,
    restarted: bool,
)
    requires
        call_ensures(ActorStatus::new, (kind, details), status),
        call_ensures(ActorStatus::is_failed, (&status,), failed),
        call_ensures(ActorStartCause::is_restarted, (&cause,), restarted),
    ensures
        status.kind == kind && status.details == details,
        failed <==> kind == ActorStatusKind::Failed,
        restarted <==> cause == ActorStartCause::Restarted,
{
}

/// A copy of a meta is the same meta.
pub proof fn meta_is_copied(meta: ActorMeta, copy: ActorMeta)
    requires
        call_ensures(ActorMeta::duplicate, (&meta,), copy),
    ensures
        copy.group@ == meta.group@ && copy.key@ == meta.key@,
{
}

} // verus!
