//! Selection of a runtime for an actor.

use vstd::prelude::*;

use crate::actor::ActorMeta;

verus! {

/// Dedicated runtimes with filters of actors that must be spawned on them.
pub struct RuntimeManager<F, H> {
    pub dedicated: Vec<(F, H)>,
}

impl<F, H> RuntimeManager<F, H> {
    pub fn new() -> (this: RuntimeManager<F, H>)
        ensures
            this.dedicated.len() == 0,
    {
        RuntimeManager { dedicated: Vec::new() }
    }

    /// Adds a dedicated runtime.
    pub fn add(&mut self, filter: F, handle: H)
        ensures
            final(self).dedicated@ == old(self).dedicated@.push((filter, handle)),
    {
        self.dedicated.push((filter, handle));
    }
}

impl<F: Fn(&ActorMeta) -> bool, H> RuntimeManager<F, H> {
    /// Returns the first runtime whose filter accepts the actor, `None` if the
    /// current one should be used.
    pub fn get(&self, meta: &ActorMeta) -> (res: Option<&H>)
        requires
            forall|i: int|
                0 <= i < self.dedicated.len() ==> call_requires(
                    (#[trigger] self.dedicated[i]).0,
                    (meta,),
                ),
        ensures
            match res {
                Some(handle) => exists|i: int|
                    {
                        &&& 0 <= i < self.dedicated.len()
                        &&& call_ensures((#[trigger] self.dedicated[i]).0, (meta,), true)
                        &&& self.dedicated[i].1 == *handle
                        &&& forall|j: int|
                            0 <= j < i ==> call_ensures(
                                (#[trigger] self.dedicated[j]).0,
                                (meta,),
                                false,
                            )
                    },
                None => forall|i: int|
                    0 <= i < self.dedicated.len() ==> call_ensures(
                        (#[trigger] self.dedicated[i]).0,
                        (meta,),
                        false,
                    ),
            },
    {
        let mut i: usize = 0;
        while i < self.dedicated.len()
            invariant
                i <= self.dedicated.len(),
                forall|i: int|
                    0 <= i < self.dedicated.len() ==> call_requires(
                        (#[trigger] self.dedicated[i]).0,
                        (meta,),
                    ),
                forall|j: int|
                    0 <= j < i ==> call_ensures((#[trigger] self.dedicated[j]).0, (meta,), false),
            decreases self.dedicated.len() - i,
        {
            let pair = &self.dedicated[i];
            assert(call_requires(self.dedicated[i as int].0, (meta,)));
            let is_accepted = (pair.0)(meta);
            if is_accepted {
                assert(call_ensures(self.dedicated[i as int].0, (meta,), true));
                return Some(&pair.1);
            }
            i += 1;
        }
        None
    }
}

// === Laws ===

/// What is known about a runtime that is found.
proof fn lemma_found<F: Fn(&ActorMeta) -> bool, H>(
    args: (&RuntimeManager<F, H>, &ActorMeta),
    res: Option<&H>,
) -> (i: int)
    requires
        call_ensures(RuntimeManager::<F, H>::get, args, res),
    ensures
        0 <= i <= args.0.dedicated@.len(),
        res is None <==> i == args.0.dedicated@.len(),
        forall|j: int|
            0 <= j < i ==> call_ensures((#[trigger] args.0.dedicated@[j]).0, (args.1,), false),
        res is Some ==> call_ensures(args.0.dedicated@[i].0, (args.1,), true)
            && args.0.dedicated@[i].1 == *res->0,
{
    match res {
        None => {
            assert forall|j: int| 0 <= j < args.0.dedicated@.len() implies call_ensures(
                (#[trigger] args.0.dedicated@[j]).0,
                (args.1,),
                false,
            ) by {
                assert(call_ensures(args.0.dedicated[j].0, (args.1,), false));
            }
            args.0.dedicated@.len() as int
        },
        Some(handle) => {
            let i = choose|i: int|
                {
                    &&& 0 <= i < args.0.dedicated.len()
                    &&& call_ensures((#[trigger] args.0.dedicated[i]).0, (args.1,), true)
                    &&& args.0.dedicated[i].1 == *handle
                    &&& forall|j: int|
                        0 <= j < i ==> call_ensures(
                            (#[trigger] args.0.dedicated[j]).0,
                            (args.1,),
                            false,
                        )
                };
            assert forall|j: int| 0 <= j < i implies call_ensures(
                (#[trigger] args.0.dedicated@[j]).0,
                (args.1,),
                false,
            ) by {
                assert(call_ensures(args.0.dedicated[j].0, (args.1,), false));
            }
            i
        },
    }
}

/// Runtimes are asked in the order in which they are added: the one that is added
/// last is used only if no other one accepts the actor.
pub proof fn first_accepting_runtime_is_used<F: Fn(&ActorMeta) -> bool, H>(
    manager: &mut RuntimeManager<F, H>,
    filter: F,
    handle: H,
    meta: &ActorMeta,
    before: Option<&H>,
    after: Option<&H>,
)
    requires
        call_ensures(RuntimeManager::<F, H>::add, (manager, filter, handle), ()),
        call_ensures(RuntimeManager::<F, H>::get, (old(manager), meta), before),
        call_ensures(RuntimeManager::<F, H>::get, (final(manager), meta), after),
        // Filters always give the same answer.
        forall|i: int|
            0 <= i < final(manager).dedicated.len() ==> !(call_ensures(
                (#[trigger] final(manager).dedicated[i]).0,
                (meta,),
                true,
            ) && call_ensures(final(manager).dedicated[i].0, (meta,), false)),
    ensures
        before is Some ==> after is Some && *after->0 == *before->0,
        before is None && after is Some ==> call_ensures(filter, (meta,), true) && *after->0
            == handle,
        before is None && after is None ==> call_ensures(filter, (meta,), false),
{
    let a = old(manager).dedicated@;
    let b = final(manager).dedicated@;
    assert(b.last() == (filter, handle));
    let i = lemma_found((old(manager), meta), before);
    let j = lemma_found((final(manager), meta), after);
    assert(forall|k: int| 0 <= k < a.len() ==> a[k] == b[k]);
    if i < j && i < a.len() {
        assert(call_ensures(b[i].0, (meta,), false));
        assert(a[i] == final(manager).dedicated[i]);
    }
    if j < i {
        assert(call_ensures(a[j].0, (meta,), false));
        assert(b[j] == final(manager).dedicated[j]);
    }
}

/// There are no dedicated runtimes at first, so no actor is accepted.
pub proof fn no_dedicated_runtimes_at_first<F: Fn(&ActorMeta) -> bool, H>(
    manager: RuntimeManager<F, H>,
    meta: &ActorMeta,
    res: Option<&H>,
)
    requires
        call_ensures(RuntimeManager::<F, H>::new, (), manager),
        call_ensures(RuntimeManager::<F, H>::get, (&manager, meta), res),
    ensures
        res is None,
{
}

} // verus!
