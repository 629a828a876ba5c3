//! Subscribers of a group.

use vstd::prelude::*;

use crate::addr::Addr;

verus! {

/// Who is subscribed, from the first to the last.
#[derive(Debug)]
pub struct SubscriptionManager {
    pub subscribers: Vec<Addr>,
}

/// Whether an address isn't `addr`.
pub open spec fn differs_from(addr: Addr) -> spec_fn(Addr) -> bool {
    |stored: Addr| stored != addr
}

/// All addresses except `addr`, in the same order.
pub open spec fn without(addrs: Seq<Addr>, addr: Addr) -> Seq<Addr> {
    addrs.filter(differs_from(addr))
}

/// Subscribers that cannot be reached.
pub open spec fn failed(addrs: Seq<Addr>, results: Seq<bool>, addr: Addr) -> bool {
    exists|i: int| 0 <= i < addrs.len() && #[trigger] addrs[i] == addr && !results[i]
}

/// Subscribers that stay after a message has been sent.
pub open spec fn reached(addrs: Seq<Addr>, results: Seq<bool>) -> Seq<Addr> {
    addrs.filter(|addr: Addr| !failed(addrs, results, addr))
}

impl SubscriptionManager {
    pub fn new() -> (this: SubscriptionManager)
        ensures
            this.subscribers@ == Seq::<Addr>::empty(),
    {
        SubscriptionManager { subscribers: Vec::new() }
    }

    /// Subscribes, returns `false` if it was already subscribed.
    pub fn add(&mut self, addr: Addr) -> (is_new: bool)
        ensures
            is_new == !old(self).subscribers@.contains(addr),
            final(self).subscribers@ == old(self).subscribers@.push(addr),
    {
        let is_new = !contains(&self.subscribers, addr);
        self.subscribers.push(addr);
        is_new
    }

    pub fn remove(&mut self, addr: Addr)
        ensures
            final(self).subscribers@ == without(old(self).subscribers@, addr),
    {
        let mut kept: Vec<Addr> = Vec::new();
        let ghost all = self.subscribers@;
        let ghost pred = differs_from(addr);
        let mut i: usize = 0;
        assert(all.take(0) =~= Seq::empty());
        reveal(Seq::filter);
        while i < self.subscribers.len()
            invariant
                i <= self.subscribers.len(),
                all == self.subscribers@,
                pred == differs_from(addr),
                kept@ == self.subscribers@.take(i as int).filter(pred),
            decreases self.subscribers.len() - i,
        {
            let stored = self.subscribers[i];
            proof {
                lemma_filter_step(self.subscribers@, i as int, pred);
            }
            if stored != addr {
                kept.push(stored);
            }
            i += 1;
        }
        assert(self.subscribers@.take(i as int) =~= self.subscribers@);
        self.subscribers = kept;
    }

    /// Unsubscribes everyone who cannot be reached. `results[i]` is whether the
    /// message has been sent to the i-th subscriber.
    ///
    /// Returns those who are unsubscribed, from the first to the last.
    pub fn send(&mut self, results: &Vec<bool>) -> (removed: Vec<Addr>)
        requires
            results.len() == old(self).subscribers.len(),
        ensures
            final(self).subscribers@ == reached(old(self).subscribers@, results@),
            removed@ == old(self).subscribers@.filter(
                |addr: Addr| failed(old(self).subscribers@, results@, addr),
            ),
    {
        let mut to_remove: Vec<Addr> = Vec::new();
        let mut i: usize = 0;
        while i < self.subscribers.len()
            invariant
                i <= self.subscribers.len() == results.len(),
                forall|addr: Addr| #[trigger]
                    to_remove@.contains(addr) <==> exists|k: int|
                        0 <= k < i && #[trigger] self.subscribers[k] == addr && !results[k],
            decreases self.subscribers.len() - i,
        {
            if !results[i] {
                let ghost before = to_remove@;
                let ghost addr = self.subscribers[i as int];
                to_remove.push(self.subscribers[i]);
                proof {
                    assert forall|a: Addr| #[trigger] to_remove@.contains(a) == (before.contains(a)
                        || a == addr) by {
                        if before.contains(a) {
                            let k = choose|k: int| 0 <= k < before.len() && before[k] == a;
                            assert(to_remove@[k] == a);
                        }
                        if a == addr {
                            assert(to_remove@[before.len() as int] == a);
                        }
                        if to_remove@.contains(a) {
                            let k = choose|k: int| 0 <= k < to_remove@.len() && to_remove@[k] == a;
                            if k < before.len() {
                                assert(before[k] == a);
                            }
                        }
                    }
                }
            }
            i += 1;
        }

        let ghost all = self.subscribers@;
        let ghost is_kept = |addr: Addr| !failed(all, results@, addr);
        let ghost is_failed = |addr: Addr| failed(all, results@, addr);
        let mut kept: Vec<Addr> = Vec::new();
        let mut removed: Vec<Addr> = Vec::new();
        i = 0;
        assert(all.take(0) =~= Seq::empty());
        reveal(Seq::filter);
        while i < self.subscribers.len()
            invariant
                i <= self.subscribers.len() == results.len(),
                all == self.subscribers@,
                is_kept == (|addr: Addr| !failed(all, results@, addr)),
                is_failed == (|addr: Addr| failed(all, results@, addr)),
                forall|addr: Addr| #[trigger]
                    to_remove@.contains(addr) <==> failed(all, results@, addr),
                kept@ == all.take(i as int).filter(is_kept),
                removed@ == all.take(i as int).filter(is_failed),
            decreases self.subscribers.len() - i,
        {
            let stored = self.subscribers[i];
            proof {
                lemma_filter_step(all, i as int, is_kept);
                lemma_filter_step(all, i as int, is_failed);
            }
            if contains(&to_remove, stored) {
                removed.push(stored);
            } else {
                kept.push(stored);
            }
            i += 1;
        }
        assert(all.take(i as int) =~= all);
        self.subscribers = kept;
        removed
    }
}

fn contains(addrs: &Vec<Addr>, addr: Addr) -> (res: bool)
    ensures
        res == addrs@.contains(addr),
{
    let mut i: usize = 0;
    while i < addrs.len()
        invariant
            i <= addrs.len(),
            forall|k: int| 0 <= k < i ==> addrs[k] != addr,
        decreases addrs.len() - i,
    {
        if addrs[i] == addr {
            return true;
        }
        i += 1;
    }
    false
}

proof fn lemma_filter_step(addrs: Seq<Addr>, i: int, pred: spec_fn(Addr) -> bool)
    requires
        0 <= i < addrs.len(),
    ensures
        addrs.take(i + 1).filter(pred) == if pred(addrs[i]) {
            addrs.take(i).filter(pred).push(addrs[i])
        } else {
            addrs.take(i).filter(pred)
        },
{
    reveal(Seq::filter);
    assert(addrs.take(i + 1).drop_last() =~= addrs.take(i));
    assert(addrs.take(i + 1).last() == addrs[i]);
}

// === Laws ===

/// A removed subscriber isn't subscribed anymore, others stay.
pub proof fn removed_is_not_subscribed(addrs: Seq<Addr>, addr: Addr, other: Addr)
    ensures
        !without(addrs, addr).contains(addr),
        other != addr ==> without(addrs, addr).contains(other) == addrs.contains(other),
    decreases addrs.len(),
{
    reveal(Seq::filter);
    let pred = differs_from(addr);
    if addrs.len() > 0 {
        let rest = addrs.drop_last();
        removed_is_not_subscribed(rest, addr, other);
        let last = addrs.last();
        assert(addrs =~= rest.push(last));
        vstd::seq_lib::lemma_seq_contains_after_push(rest, last, other);
        vstd::seq_lib::lemma_seq_contains_after_push(rest.filter(pred), last, other);
        vstd::seq_lib::lemma_seq_contains_after_push(rest.filter(pred), last, addr);
        if rest.contains(other) {
            let k = choose|k: int| 0 <= k < rest.len() && rest[k] == other;
            assert(addrs[k] == other);
        }
    }
}

/// Who is subscribed is told until it's removed. Only the first subscription is new.
pub proof fn subscribers_are_known(
    fresh: SubscriptionManager,
    manager: &mut SubscriptionManager,
    again: &mut SubscriptionManager,
    removing: &mut SubscriptionManager,
    anew: &mut SubscriptionManager,
    addr: Addr,
    other: Addr,
    a: bool,
    b: bool,
    c: bool,
)
    requires
        call_ensures(SubscriptionManager::new, (), fresh),
        call_ensures(SubscriptionManager::add, (manager, addr), a),
        *old(again) == *final(manager),
        call_ensures(SubscriptionManager::add, (again, addr), b),
        *old(removing) == *final(again),
        call_ensures(SubscriptionManager::remove, (removing, addr), ()),
        *old(anew) == *final(removing),
        call_ensures(SubscriptionManager::add, (anew, addr), c),
    ensures
        fresh.subscribers@.len() == 0,
        a <==> !old(manager).subscribers@.contains(addr),
        final(manager).subscribers@ == old(manager).subscribers@.push(addr),
        !b && c,
        other != addr ==> (final(removing).subscribers@.contains(other) <==> old(manager).subscribers@.contains(other)),
        !final(removing).subscribers@.contains(addr),
{
    let before = old(manager).subscribers@;
    vstd::seq_lib::lemma_seq_contains_after_push(before, addr, addr);
    vstd::seq_lib::lemma_seq_contains_after_push(before, addr, other);
    vstd::seq_lib::lemma_seq_contains_after_push(before.push(addr), addr, other);
    removed_is_not_subscribed(before.push(addr).push(addr), addr, other);
}

proof fn lemma_filtered(addrs: Seq<Addr>, pred: spec_fn(Addr) -> bool, addr: Addr)
    ensures
        addrs.filter(pred).contains(addr) <==> addrs.contains(addr) && pred(addr),
    decreases addrs.len(),
{
    reveal(Seq::filter);
    if addrs.len() > 0 {
        let rest = addrs.drop_last();
        let last = addrs.last();
        lemma_filtered(rest, pred, addr);
        assert(addrs =~= rest.push(last));
        vstd::seq_lib::lemma_seq_contains_after_push(rest, last, addr);
        vstd::seq_lib::lemma_seq_contains_after_push(rest.filter(pred), last, addr);
    }
}

/// A subscriber stays iff everything that is sent to it reaches it, others are told
/// about.
pub proof fn unreachable_subscribers_are_removed(
    manager: &mut SubscriptionManager,
    results: Vec<bool>,
    removed: Vec<Addr>,
    i: int,
    addr: Addr,
)
    requires
        call_ensures(SubscriptionManager::send, (manager, &results), removed),
        results@.len() == old(manager).subscribers@.len(),
        0 <= i < old(manager).subscribers@.len(),
    ensures
        !results@[i] ==> {
            &&& removed@.contains(old(manager).subscribers@[i])
            &&& !final(manager).subscribers@.contains(old(manager).subscribers@[i])
        },
        (forall|k: int|
            0 <= k < results@.len() && #[trigger] old(manager).subscribers@[k] == addr
                ==> results@[k]) ==> {
            &&& !removed@.contains(addr)
            &&& final(manager).subscribers@.contains(addr) <==> old(manager).subscribers@.contains(addr)
        },
        (forall|k: int| 0 <= k < results@.len() ==> #[trigger] results@[k])
            ==> final(manager).subscribers@ == old(manager).subscribers@ && removed@.len() == 0,
{
    let all = old(manager).subscribers@;
    let is_kept = |addr: Addr| !failed(all, results@, addr);
    let is_failed = |addr: Addr| failed(all, results@, addr);
    assert(final(manager).subscribers@ == all.filter(is_kept));
    assert(removed@ == all.filter(is_failed));
    assert(all.contains(all[i]));
    lemma_filtered(all, is_kept, all[i]);
    lemma_filtered(all, is_failed, all[i]);
    lemma_filtered(all, is_kept, addr);
    lemma_filtered(all, is_failed, addr);
    if forall|k: int| 0 <= k < results@.len() ==> #[trigger] results@[k] {
        assert forall|a: Addr| !#[trigger] is_failed(a) && is_kept(a) by {
            if failed(all, results@, a) {
                let k = choose|k: int| 0 <= k < all.len() && #[trigger] all[k] == a && !results@[k];
                assert(results@[k]);
            }
        }
        lemma_all_kept(all, is_kept);
        lemma_none_kept(all, is_failed);
    }
}

proof fn lemma_all_kept(addrs: Seq<Addr>, pred: spec_fn(Addr) -> bool)
    requires
        forall|addr: Addr| #[trigger] pred(addr),
    ensures
        addrs.filter(pred) == addrs,
    decreases addrs.len(),
{
    reveal(Seq::filter);
    if addrs.len() > 0 {
        lemma_all_kept(addrs.drop_last(), pred);
        assert(addrs.drop_last().push(addrs.last()) =~= addrs);
    }
}

proof fn lemma_none_kept(addrs: Seq<Addr>, pred: spec_fn(Addr) -> bool)
    requires
        forall|addr: Addr| !#[trigger] pred(addr),
    ensures
        addrs.filter(pred).len() == 0,
    decreases addrs.len(),
{
    reveal(Seq::filter);
    if addrs.len() > 0 {
        lemma_none_kept(addrs.drop_last(), pred);
    }
}

} // verus!
