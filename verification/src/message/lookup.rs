use vstd::prelude::*;

use super::repr::MessageVTable;

verus! {

/// All registered message vtables.
#[derive(Debug)]
pub struct VTablesMap {
    pub list: Vec<MessageVTable>,
}

/// The last vtable with the signature.
pub open spec fn find_last(list: Seq<MessageVTable>, protocol: Seq<char>, name: Seq<char>) -> Option<
    MessageVTable,
>
    decreases list.len(),
{
    if list.len() == 0 {
        None
    } else if list.last().signature() == (protocol, name) {
        Some(list.last())
    } else {
        find_last(list.drop_last(), protocol, name)
    }
}

/// Whether a vtable is hidden by another one with the same signature.
pub open spec fn is_hidden(list: Seq<MessageVTable>, vtable: MessageVTable) -> bool {
    find_last(list, vtable.protocol@, vtable.name@) matches Some(stored) && stored.id != vtable.id
}

/// Whether there is a hidden vtable with the signature.
pub open spec fn has_hidden(
    list: Seq<MessageVTable>,
    signature: (Seq<char>, Seq<char>),
) -> bool {
    exists|i: int|
        0 <= i < list.len() && is_hidden(list, #[trigger] list[i]) && list[i].signature()
            == signature
}

/// All signatures.
pub open spec fn signatures(list: Seq<MessageVTable>) -> Set<(Seq<char>, Seq<char>)>
    decreases list.len(),
{
    if list.len() == 0 {
        Set::empty()
    } else {
        signatures(list.drop_last()).insert(list.last().signature())
    }
}

proof fn lemma_signatures(list: Seq<MessageVTable>)
    ensures
        signatures(list).finite(),
        forall|signature: (Seq<char>, Seq<char>)| #[trigger]
            signatures(list).contains(signature) <==> exists|i: int|
                0 <= i < list.len() && (#[trigger] list[i]).signature() == signature,
    decreases list.len(),
{
    if list.len() > 0 {
        let rest = list.drop_last();
        lemma_signatures(rest);
        assert forall|signature: (Seq<char>, Seq<char>)| #[trigger]
            signatures(list).contains(signature) <==> exists|i: int|
                0 <= i < list.len() && (#[trigger] list[i]).signature() == signature by {
            if signatures(rest).contains(signature) {
                let i = choose|i: int|
                    0 <= i < rest.len() && (#[trigger] rest[i]).signature() == signature;
                assert(list[i] == rest[i]);
            }
            if exists|i: int|
                0 <= i < list.len() && (#[trigger] list[i]).signature() == signature {
                let i = choose|i: int|
                    0 <= i < list.len() && (#[trigger] list[i]).signature() == signature;
                if i < rest.len() {
                    assert(rest[i] == list[i]);
                }
            }
            assert(list[list.len() - 1] == list.last());
        }
    }
}

/// Whether all signatures are different.
pub open spec fn is_unique(list: Seq<MessageVTable>) -> bool {
    forall|i: int, j: int|
        0 <= i < j < list.len() ==> (#[trigger] list[i]).signature() != (
        #[trigger] list[j]).signature()
}

impl VTablesMap {
    /// Registers all vtables. If several ones have the same signature, the last
    /// is used.
    pub fn new(list: Vec<MessageVTable>) -> (this: VTablesMap)
        requires
            forall|i: int| 0 <= i < list.len() ==> (#[trigger] list[i]).wf(),
        ensures
            this.wf(),
            this.list == list,
    {
        VTablesMap { list }
    }

    pub open spec fn wf(&self) -> bool {
        forall|i: int| 0 <= i < self.list.len() ==> (#[trigger] self.list[i]).wf()
    }

    pub open spec fn spec_get(&self, protocol: Seq<char>, name: Seq<char>) -> Option<
        MessageVTable,
    > {
        find_last(self.list@, protocol, name)
    }

    /// Finds a vtable by protocol and name.
    pub fn get(&self, protocol: &str, name: &str) -> (res: Option<&MessageVTable>)
        requires
            self.wf(),
        ensures
            match self.spec_get(protocol@, name@) {
                Some(vtable) => res == Some(&vtable) && vtable.wf() && vtable.signature() == (
                    protocol@,
                    name@,
                ),
                None => res is None,
            },
    {
        let owned_protocol: String = protocol.to_owned();
        let owned_name: String = name.to_owned();
        let mut i: usize = self.list.len();
        assert(self.list@.take(i as int) =~= self.list@);
        while i > 0
            invariant
                self.wf(),
                i <= self.list.len(),
                owned_protocol@ == protocol@,
                owned_name@ == name@,
                find_last(self.list@, protocol@, name@) == find_last(
                    self.list@.take(i as int),
                    protocol@,
                    name@,
                ),
            decreases i,
        {
            i -= 1;
            let ghost rest = self.list@.take(i + 1);
            assert(rest.drop_last() =~= self.list@.take(i as int));
            assert(rest.last() == self.list@[i as int]);
            let vtable = &self.list[i];
            if vtable.protocol == owned_protocol && vtable.name == owned_name {
                return Some(vtable);
            }
        }
        None
    }

    /// How many vtables can be found.
    pub fn len(&self) -> (len: usize)
        requires
            self.wf(),
        ensures
            len == signatures(self.list@).len(),
    {
        let mut len: usize = 0;
        let mut i: usize = 0;
        while i < self.list.len()
            invariant
                self.wf(),
                len <= i <= self.list.len(),
                len == signatures(self.list@.take(i as int)).len(),
            decreases self.list.len() - i,
        {
            let is_known = self.occurs_before(i);
            proof {
                let known = self.list@.take(i as int);
                let signature = self.list[i as int].signature();
                lemma_signatures(known);
                assert(self.list@.take(i + 1).drop_last() =~= known);
                assert(forall|j: int| 0 <= j < i ==> known[j] == #[trigger] self.list[j]);
                if is_known {
                    let j = choose|j: int|
                        0 <= j < i && (#[trigger] self.list[j]).signature() == signature;
                    assert(known[j].signature() == signature);
                    assert(signatures(known).insert(signature) =~= signatures(known));
                } else {
                    assert(forall|j: int|
                        0 <= j < known.len() ==> (#[trigger] known[j]) == self.list[j]);
                    assert(!signatures(known).contains(signature));
                }
            }
            if !is_known {
                len += 1;
            }
            i += 1;
        }
        assert(self.list@.take(i as int) =~= self.list@);
        len
    }

    /// Checks that all registered message have different protocol and name.
    /// Returns a list of duplicates if it's violated: signatures of vtables
    /// that cannot be found, each once.
    pub fn check_uniqueness(&self) -> (res: Result<(), Vec<(String, String)>>)
        requires
            self.wf(),
        ensures
            res is Ok <==> is_unique(self.list@),
            res matches Err(duplicates) ==> {
                &&& forall|k: int|
                    0 <= k < duplicates.len() ==> has_hidden(self.list@, sig_view(#[trigger] duplicates[k]))
                &&& forall|i: int|
                    0 <= i < self.list.len() && is_hidden(self.list@, #[trigger] self.list[i])
                        ==> listed(duplicates@, self.list[i].signature())
                &&& forall|k: int, l: int|
                    0 <= k < l < duplicates.len() ==> sig_view(#[trigger] duplicates[k])
                        != sig_view(#[trigger] duplicates[l])
            },
    {
        let mut is_ok: bool = true;
        let mut duplicates: Vec<(String, String)> = Vec::new();
        let mut i: usize = 0;
        while i < self.list.len()
            invariant
                self.wf(),
                i <= self.list.len(),
                is_ok == is_unique(self.list@.take(i as int)),
                forall|k: int|
                    0 <= k < duplicates.len() ==> has_hidden(self.list@, sig_view(#[trigger] duplicates[k])),
                forall|j: int|
                    0 <= j < i && is_hidden(self.list@, #[trigger] self.list[j]) ==> listed(
                        duplicates@,
                        self.list[j].signature(),
                    ),
                forall|k: int, l: int|
                    0 <= k < l < duplicates.len() ==> sig_view(#[trigger] duplicates[k])
                        != sig_view(#[trigger] duplicates[l]),
            decreases self.list.len() - i,
        {
            let vtable = &self.list[i];
            if is_ok && self.occurs_before(i) {
                is_ok = false;
            }
            proof {
                lemma_unique_step(self.list@, i as int);
            }

            if let Some(stored) = self.get(vtable.protocol.as_str(), vtable.name.as_str()) {
                if stored.id != vtable.id && !contains(&duplicates, vtable) {
                    let ghost before = duplicates@;
                    let pair = (vtable.protocol.clone(), vtable.name.clone());
                    duplicates.push(pair);
                    proof {
                        lemma_listed_push(before, pair);
                        assert(is_hidden(self.list@, self.list[i as int]));
                        assert(sig_view(pair) == self.list[i as int].signature());
                        assert forall|k: int| 0 <= k < duplicates.len() implies has_hidden(
                            self.list@,
                            sig_view(#[trigger] duplicates[k]),
                        ) by {
                            if k < before.len() {
                                assert(duplicates[k] == before[k]);
                            }
                        }
                        assert forall|j: int|
                            0 <= j < i && is_hidden(self.list@, #[trigger] self.list[j]) implies listed(
                            duplicates@,
                            self.list[j].signature(),
                        ) by {
                            assert(listed(before, self.list[j].signature()));
                        }
                        assert forall|k: int, l: int|
                            0 <= k < l < duplicates.len() implies sig_view(#[trigger] duplicates[k])
                            != sig_view(#[trigger] duplicates[l]) by {
                            assert(duplicates[k] == before[k]);
                            if l < before.len() {
                                assert(duplicates[l] == before[l]);
                            } else {
                                assert(!listed(before, sig_view(pair)));
                            }
                        }
                    }
                }
            }
            i += 1;
        }
        assert(self.list@.take(i as int) =~= self.list@);

        if is_ok {
            Ok(())
        } else {
            Err(duplicates)
        }
    }

    /// Whether the signature of the i-th vtable is also before it.
    fn occurs_before(&self, i: usize) -> (res: bool)
        requires
            i < self.list.len(),
        ensures
            res == exists|j: int|
                0 <= j < i && (#[trigger] self.list[j]).signature()
                    == self.list[i as int].signature(),
    {
        let mut j: usize = 0;
        while j < i
            invariant
                j <= i < self.list.len(),
                forall|k: int|
                    0 <= k < j ==> (#[trigger] self.list[k]).signature()
                        != self.list[i as int].signature(),
            decreases i - j,
        {
            if self.list[j].protocol == self.list[i].protocol && self.list[j].name
                == self.list[i].name {
                assert(self.list[j as int].signature() == self.list[i as int].signature());
                return true;
            }
            j += 1;
        }
        false
    }
}

pub open spec fn sig_view(pair: (String, String)) -> (Seq<char>, Seq<char>) {
    (pair.0@, pair.1@)
}

pub open spec fn listed(pairs: Seq<(String, String)>, signature: (Seq<char>, Seq<char>)) -> bool {
    exists|k: int| 0 <= k < pairs.len() && sig_view(#[trigger] pairs[k]) == signature
}

fn contains(pairs: &Vec<(String, String)>, vtable: &MessageVTable) -> (res: bool)
    ensures
        res == listed(pairs@, vtable.signature()),
{
    let mut k: usize = 0;
    while k < pairs.len()
        invariant
            k <= pairs.len(),
            forall|l: int| 0 <= l < k ==> sig_view(#[trigger] pairs[l]) != vtable.signature(),
        decreases pairs.len() - k,
    {
        let pair = &pairs[k];
        if pair.0 == vtable.protocol && pair.1 == vtable.name {
            assert(sig_view(pairs[k as int]) == vtable.signature());
            return true;
        }
        k += 1;
    }
    false
}

proof fn lemma_unique_step(list: Seq<MessageVTable>, i: int)
    requires
        0 <= i < list.len(),
    ensures
        is_unique(list.take(i + 1)) == (is_unique(list.take(i)) && !(exists|j: int|
            0 <= j < i && (#[trigger] list[j]).signature() == list[i].signature())),
{
    let a = list.take(i);
    let b = list.take(i + 1);
    assert forall|j: int| 0 <= j < i implies a[j] == list[j] && b[j] == list[j] by {}
    assert(b[i] == list[i]);
    if is_unique(b) {
        assert forall|j: int, k: int| 0 <= j < k < a.len() implies (#[trigger] a[j]).signature()
            != (#[trigger] a[k]).signature() by {
            assert(b[j].signature() != b[k].signature());
        }
        assert forall|j: int| 0 <= j < i implies (#[trigger] list[j]).signature()
            != list[i].signature() by {
            assert(b[j].signature() != b[i].signature());
        }
    }
    if is_unique(a) && !(exists|j: int|
        0 <= j < i && (#[trigger] list[j]).signature() == list[i].signature()) {
        assert forall|j: int, k: int| 0 <= j < k < b.len() implies (#[trigger] b[j]).signature()
            != (#[trigger] b[k]).signature() by {
            if k < i {
                assert(a[j].signature() != a[k].signature());
            } else {
                assert(list[j].signature() != list[i].signature());
            }
        }
    }
}

proof fn lemma_listed_push(pairs: Seq<(String, String)>, pair: (String, String))
    ensures
        forall|signature: (Seq<char>, Seq<char>)|
            listed(pairs, signature) ==> #[trigger] listed(pairs.push(pair), signature),
        listed(pairs.push(pair), sig_view(pair)),
{
    assert forall|signature: (Seq<char>, Seq<char>)| listed(pairs, signature) implies #[trigger] listed(
        pairs.push(pair),
        signature,
    ) by {
        let k = choose|k: int| 0 <= k < pairs.len() && sig_view(#[trigger] pairs[k]) == signature;
        assert(pairs.push(pair)[k] == pairs[k]);
    }
    assert(pairs.push(pair)[pairs.len() as int] == pair);
}

// === Laws ===

/// If all signatures are different, every registered vtable can be found.
pub proof fn unique_vtables_are_found(list: Seq<MessageVTable>, i: int)
    requires
        is_unique(list),
        0 <= i < list.len(),
    ensures
        find_last(list, list[i].protocol@, list[i].name@) == Some(list[i]),
    decreases list.len(),
{
    if i < list.len() - 1 {
        let rest = list.drop_last();
        assert(list[i].signature() != list[list.len() - 1].signature());
        assert forall|j: int, k: int| 0 <= j < k < rest.len() implies (#[trigger] rest[j]).signature()
            != (#[trigger] rest[k]).signature() by {
            assert(list[j].signature() != list[k].signature());
        }
        unique_vtables_are_found(rest, i);
        assert(rest[i] == list[i]);
    }
}

proof fn lemma_found(list: Seq<MessageVTable>, protocol: Seq<char>, name: Seq<char>)
    ensures
        find_last(list, protocol, name) is Some <==> signatures(list).contains((protocol, name)),
    decreases list.len(),
{
    if list.len() > 0 {
        lemma_found(list.drop_last(), protocol, name);
    }
}

/// The vtable that is registered last is the one that is found by its protocol and
/// name, others are found as before. Nothing is found if nothing is registered.
pub proof fn last_registered_is_found(
    a: VTablesMap,
    b: VTablesMap,
    vtable: MessageVTable,
    protocol: &str,
    name: &str,
    before: Option<&MessageVTable>,
    after: Option<&MessageVTable>,
    len: usize,
    more: usize,
    known: Option<&MessageVTable>,
    own_protocol: &str,
    own_name: &str,
)
    requires
        b.list@ == a.list@.push(vtable),
        own_protocol@ == vtable.protocol@ && own_name@ == vtable.name@,
        call_ensures(VTablesMap::get, (&a, protocol, name), before),
        call_ensures(VTablesMap::get, (&b, protocol, name), after),
        call_ensures(VTablesMap::get, (&a, own_protocol, own_name), known),
        call_ensures(VTablesMap::len, (&a,), len),
        call_ensures(VTablesMap::len, (&b,), more),
    ensures
        a.list@.len() == 0 ==> before is None && len == 0,
        protocol@ == vtable.protocol@ && name@ == vtable.name@ ==> after is Some && *after->0
            == vtable,
        protocol@ != vtable.protocol@ || name@ != vtable.name@ ==> after == before,
        known is None ==> more == len + 1,
        known is Some ==> more == len,
{
    assert(b.list@.drop_last() =~= a.list@);
    assert(b.list@.last() == vtable);
    lemma_signatures(a.list@);
    lemma_found(a.list@, vtable.protocol@, vtable.name@);
    let set = signatures(a.list@);
    if known is Some {
        assert(set.insert(vtable.signature()) =~= set);
    }
}

/// All vtables are kept.
pub proof fn registered_are_kept(list: Vec<MessageVTable>, map: VTablesMap)
    requires
        call_ensures(VTablesMap::new, (list,), map),
    ensures
        map.list == list,
{
}

proof fn lemma_checked(args: (&VTablesMap,), res: Result<(), Vec<(String, String)>>, i: int)
    requires
        call_ensures(VTablesMap::check_uniqueness, args, res),
        0 <= i < args.0.list@.len(),
        res is Err,
        is_hidden(args.0.list@, args.0.list@[i]),
    ensures
        listed(res->Err_0@, args.0.list@[i].signature()),
{
    assert(is_hidden(args.0.list@, args.0.list[i]));
}

/// Messages are unique iff no two of them have both the same protocol and the same
/// name.
pub proof fn uniqueness_is_checked(
    map: VTablesMap,
    res: Result<(), Vec<(String, String)>>,
    i: int,
    j: int,
)
    requires
        0 <= i < j < map.list@.len(),
        call_ensures(VTablesMap::check_uniqueness, (&map,), res),
    ensures
        map.list@[i].protocol@ == map.list@[j].protocol@ && map.list@[i].name@
            == map.list@[j].name@ ==> res is Err,
        (forall|a: int, b: int|
            0 <= a < b < map.list@.len() ==> (#[trigger] map.list@[a]).protocol@ != (
            #[trigger] map.list@[b]).protocol@ || map.list@[a].name@ != map.list@[b].name@)
            ==> res is Ok,
{
    if map.list@[i].protocol@ == map.list@[j].protocol@ && map.list@[i].name@
        == map.list@[j].name@ {
        assert(map.list@[i].signature() == map.list@[j].signature());
    }
    if forall|a: int, b: int|
        0 <= a < b < map.list@.len() ==> (#[trigger] map.list@[a]).protocol@ != (
        #[trigger] map.list@[b]).protocol@ || map.list@[a].name@ != map.list@[b].name@ {
        assert forall|a: int, b: int| 0 <= a < b < map.list@.len() implies (
        #[trigger] map.list@[a]).signature() != (#[trigger] map.list@[b]).signature() by {
            assert(map.list@[a].protocol@ != map.list@[b].protocol@ || map.list@[a].name@
                != map.list@[b].name@);
        }
    }
}

/// If messages aren't unique, exactly those are reported that are found as another
/// message, each once.
pub proof fn hidden_messages_are_reported(
    map: VTablesMap,
    res: Result<(), Vec<(String, String)>>,
    protocol: &str,
    name: &str,
    stored: Option<&MessageVTable>,
    i: int,
    k: int,
    l: int,
)
    requires
        call_ensures(VTablesMap::check_uniqueness, (&map,), res),
        res is Err,
        call_ensures(VTablesMap::get, (&map, protocol, name), stored),
    ensures
        0 <= i < map.list@.len() && map.list@[i].protocol@ == protocol@ && map.list@[i].name@
            == name@ && stored is Some && stored->0.id != map.list@[i].id ==> exists|k: int|
            0 <= k < res->Err_0@.len() && (#[trigger] res->Err_0@[k]).0@ == protocol@
                && res->Err_0@[k].1@ == name@,
        0 <= k < res->Err_0@.len() && res->Err_0@[k].0@ == protocol@ && res->Err_0@[k].1@ == name@
            ==> stored is Some && exists|i: int|
            0 <= i < map.list@.len() && (#[trigger] map.list@[i]).protocol@ == protocol@
                && map.list@[i].name@ == name@ && map.list@[i].id != stored->0.id,
        0 <= k < l < res->Err_0@.len() ==> res->Err_0@[k].0@ != res->Err_0@[l].0@
            || res->Err_0@[k].1@ != res->Err_0@[l].1@,
{
    let duplicates = res->Err_0;
    if 0 <= i < map.list@.len() && map.list@[i].protocol@ == protocol@ && map.list@[i].name@
        == name@ && stored is Some && stored->0.id != map.list@[i].id {
        lemma_checked((&map,), res, i);
        let k = choose|k: int|
            0 <= k < duplicates@.len() && sig_view(#[trigger] duplicates@[k])
                == map.list@[i].signature();
        assert(duplicates@[k].0@ == protocol@);
    }
    if 0 <= k < duplicates@.len() && duplicates@[k].0@ == protocol@ && duplicates@[k].1@ == name@ {
        assert(has_hidden(map.list@, sig_view(duplicates[k])));
        let i = choose|i: int|
            0 <= i < map.list@.len() && is_hidden(map.list@, #[trigger] map.list@[i])
                && map.list@[i].signature() == sig_view(duplicates@[k]);
        assert(map.list@[i].protocol@ == protocol@);
    }
    if 0 <= k < l < duplicates@.len() {
        assert(sig_view(duplicates[k]) != sig_view(duplicates[l]));
    }
}

} // verus!
