use scc::ebr::Guard;
use scc::hash_index::Entry;
use vstd::prelude::*;

use crate::addr::Addr;

verus! {

/// Addresses of actors by numbers of their keys.
#[verifier::external_body]
pub struct Objects {
    inner: scc::hash_index::HashIndex<u64, u64, fxhash::FxBuildHasher>,
}

/// Raw forms of stored addresses by numbers of keys.
pub uninterp spec fn objects_of(objects: Objects) -> Map<u64, u64>;

/// `HashIndex::default` creates an empty index.
#[verifier::external_body]
fn objects_new() -> (objects: Objects)
    ensures
        objects_of(objects).dom() == Set::<u64>::empty(),
{
    Objects { inner: Default::default() }
}

/// `HashIndex::peek` returns the value of the key, `None` if there is no one.
#[verifier::external_body]
fn objects_peek(objects: &Objects, key: u64) -> (addr: Option<u64>)
    ensures
        addr == (if objects_of(*objects).dom().contains(key) {
            Some(objects_of(*objects)[key])
        } else {
            None
        }),
{
    objects.inner.peek(&key, &Guard::new()).copied()
}

/// `HashIndex::entry` finds the place of the key: `OccupiedEntry::update`
/// replaces the value, `VacantEntry::insert_entry` stores a new one. Other
/// values stay the same.
#[verifier::external_body]
fn objects_set(objects: &mut Objects, key: u64, addr: u64)
    ensures
        objects_of(*final(objects)) == objects_of(*old(objects)).insert(key, addr),
{
    match objects.inner.entry(key) {
        Entry::Occupied(entry) => entry.update(addr),
        Entry::Vacant(entry) => drop(entry.insert_entry(addr)),
    }
}

/// `HashIndex::remove` removes the value of the key and tells whether there was
/// one. Other values stay the same.
#[verifier::external_body]
fn objects_remove(objects: &mut Objects, key: u64) -> (is_removed: bool)
    ensures
        is_removed == objects_of(*old(objects)).dom().contains(key),
        objects_of(*final(objects)) == objects_of(*old(objects)).remove(key),
{
    objects.inner.remove(&key)
}

/// `HashIndex::iter` goes through all stored pairs in some order. The same pair
/// can be met several times if the index is being resized, so it's not claimed
/// that pairs are different.
#[verifier::external_body]
fn objects_iter(objects: &Objects) -> (pairs: Vec<(u64, u64)>)
    ensures
        forall|i: int|
            0 <= i < pairs@.len() ==> objects_of(*objects).contains_pair(
                (#[trigger] pairs@[i]).0,
                pairs@[i].1,
            ),
        forall|key: u64| #[trigger]
            objects_of(*objects).dom().contains(key) ==> exists|i: int|
                0 <= i < pairs@.len() && #[trigger] pairs@[i] == (key, objects_of(*objects)[key]),
{
    objects.inner.iter(&Guard::new()).map(|(key, addr)| (*key, *addr)).collect()
}

impl View for Objects {
    type V = Map<u64, Addr>;

    open spec fn view(&self) -> Map<u64, Addr> {
        objects_of(*self).map_values(|bits: u64| Addr { bits })
    }
}

/// Whether `addrs` are all addresses of the index, in some order.
pub open spec fn lists_all(objects: Map<u64, Addr>, addrs: Seq<Addr>) -> bool {
    &&& forall|i: int| 0 <= i < addrs.len() ==> has_addr(objects, #[trigger] addrs[i])
    &&& forall|key: u64| #[trigger]
        objects.dom().contains(key) ==> addrs.contains(objects[key])
}

/// Whether some actor has the address.
pub open spec fn has_addr(objects: Map<u64, Addr>, addr: Addr) -> bool {
    exists|key: u64| #[trigger] objects.dom().contains(key) && objects[key] == addr
}

impl Objects {
    pub fn new() -> (this: Objects)
        ensures
            this@ == Map::<u64, Addr>::empty(),
    {
        let this = objects_new();
        assert(this@ =~= Map::<u64, Addr>::empty());
        this
    }

    pub fn get(&self, key: u64) -> (res: Option<Addr>)
        ensures
            res == (if self@.dom().contains(key) {
                Some(self@[key])
            } else {
                None
            }),
    {
        match objects_peek(self, key) {
            Some(bits) => Some(Addr::from_bits(bits)),
            None => None,
        }
    }

    pub fn set(&mut self, key: u64, addr: Addr)
        ensures
            final(self)@ == old(self)@.insert(key, addr),
    {
        objects_set(self, key, addr.bits);
        assert(self@ =~= old(self)@.insert(key, addr));
    }

    pub fn remove(&mut self, key: u64) -> (is_removed: bool)
        ensures
            is_removed == old(self)@.dom().contains(key),
            final(self)@ == old(self)@.remove(key),
    {
        let is_removed = objects_remove(self, key);
        assert(self@ =~= old(self)@.remove(key));
        is_removed
    }

    /// All addresses. The same one can be met several times.
    pub fn addrs(&self) -> (addrs: Vec<Addr>)
        ensures
            lists_all(self@, addrs@),
    {
        let pairs = objects_iter(self);
        let mut addrs: Vec<Addr> = Vec::new();
        let mut i: usize = 0;
        while i < pairs.len()
            invariant
                i <= pairs.len(),
                addrs.len() == i,
                forall|k: int| 0 <= k < i ==> (#[trigger] addrs[k]).bits == pairs[k].1,
            decreases pairs.len() - i,
        {
            addrs.push(Addr::from_bits(pairs[i].1));
            i += 1;
        }
        proof {
            assert forall|k: int| 0 <= k < addrs.len() implies has_addr(self@, #[trigger] addrs[k]) by {
                let key = pairs[k].0;
                assert(objects_of(*self).contains_pair(pairs@[k].0, pairs@[k].1));
                assert(self@.dom().contains(key) && self@[key] == addrs[k]);
            }
            assert forall|key: u64| #[trigger] self@.dom().contains(key) implies addrs@.contains(
                self@[key],
            ) by {
                assert(objects_of(*self).dom().contains(key));
                let k = choose|k: int|
                    0 <= k < pairs@.len() && #[trigger] pairs@[k] == (key, objects_of(*self)[key]);
                assert(addrs[k] == self@[key]);
            }
        }
        addrs
    }
}

// === Laws ===

/// An actor is found by its key until it's removed, others aren't affected.
pub proof fn actors_are_found_by_keys(
    fresh: Objects,
    nobody: Option<Addr>,
    objects: &mut Objects,
    removing: &mut Objects,
    key: u64,
    other: u64,
    addr: Addr,
    before: Option<Addr>,
    found: Option<Addr>,
    is_removed: bool,
    after: Option<Addr>,
)
    requires
        call_ensures(Objects::new, (), fresh),
        call_ensures(Objects::get, (&fresh, other), nobody),
        call_ensures(Objects::get, (old(objects), other), before),
        call_ensures(Objects::set, (objects, key, addr), ()),
        call_ensures(Objects::get, (final(objects), other), found),
        *old(removing) == *final(objects),
        call_ensures(Objects::remove, (removing, key), is_removed),
        call_ensures(Objects::get, (final(removing), other), after),
    ensures
        nobody is None,
        other == key ==> found == Some(addr),
        other != key ==> found == before,
        is_removed,
        other == key ==> after is None,
        other != key ==> after == before,
{
}

/// Nobody is removed if there is nobody.
pub proof fn unknown_key_is_not_removed(
    objects: &mut Objects,
    key: u64,
    found: Option<Addr>,
    is_removed: bool,
)
    requires
        call_ensures(Objects::get, (old(objects), key), found),
        call_ensures(Objects::remove, (objects, key), is_removed),
    ensures
        is_removed <==> found is Some,
{
}

/// All addresses are listed, and nothing else.
pub proof fn all_addresses_are_listed(
    objects: Objects,
    addrs: Vec<Addr>,
    key: u64,
    found: Option<Addr>,
    i: int,
)
    requires
        call_ensures(Objects::addrs, (&objects,), addrs),
        call_ensures(Objects::get, (&objects, key), found),
    ensures
        found is Some ==> addrs@.contains(found->0),
        0 <= i < addrs@.len() ==> exists|k: u64|
            #[trigger] objects@.dom().contains(k) && objects@[k] == addrs@[i],
{
    if 0 <= i < addrs@.len() {
        assert(has_addr(objects@, addrs@[i]));
    }
}

} // verus!
