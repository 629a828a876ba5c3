use vstd::prelude::*;

use crate::scope::{ActorMemory, Scope};

verus! {

/// How much counters of memory must be increased, `None` if they mustn't.
#[derive(Debug, Clone, Copy, PartialEq, Eq, Structural)]
pub struct AllocMetrics {
    pub allocated: Option<u64>,
    pub deallocated: Option<u64>,
}

/// The metric that is worth publishing.
pub open spec fn metric(bytes: usize) -> Option<u64> {
    if bytes > 0 {
        Some(bytes as u64)
    } else {
        None
    }
}

/// Takes metrics of memory after an actor has been polled.
pub fn publish_alloc_metrics(scope: &Scope, memory: &mut ActorMemory) -> (metrics: AllocMetrics)
    requires
        old(memory).actor == scope.actor.addr,
    ensures
        metrics.allocated == metric(old(memory).allocated_bytes),
        metrics.deallocated == metric(old(memory).deallocated_bytes),
        *final(memory) == (ActorMemory {
            actor: old(memory).actor,
            allocated_bytes: 0,
            deallocated_bytes: 0,
        }),
{
    let allocated: usize = scope.take_allocated_bytes(memory);
    let deallocated: usize = scope.take_deallocated_bytes(memory);
    AllocMetrics {
        allocated: if allocated > 0 {
            Some(allocated as u64)
        } else {
            None
        },
        deallocated: if deallocated > 0 {
            Some(deallocated as u64)
        } else {
            None
        },
    }
}

// === Laws ===

/// Everything that is counted is published, and only once. Zeros aren't published.
pub proof fn memory_is_published_once(
    scope: Scope,
    memory: &mut ActorMemory,
    again: &mut ActorMemory,
    first: AllocMetrics,
    second: AllocMetrics,
)
    requires
        call_ensures(publish_alloc_metrics, (&scope, memory), first),
        *old(again) == *final(memory),
        call_ensures(publish_alloc_metrics, (&scope, again), second),
    ensures
        first.allocated is None <==> old(memory).allocated_bytes == 0,
        first.allocated is Some ==> first.allocated->0 == old(memory).allocated_bytes,
        first.deallocated is None <==> old(memory).deallocated_bytes == 0,
        first.deallocated is Some ==> first.deallocated->0 == old(memory).deallocated_bytes,
        second.allocated is None && second.deallocated is None,
        final(memory).actor == old(memory).actor,
{
}

} // verus!
