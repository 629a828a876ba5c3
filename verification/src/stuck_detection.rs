//! Detection of actors that don't return control for a long time.

use vstd::prelude::*;

use crate::actor::ActorMeta;

verus! {

pub type ThreadId = u64;

pub type Epoch = u32;

/// An actor that is being polled by a thread.
#[derive(Debug)]
pub struct StuckActorInfo {
    pub meta: ActorMeta,
    pub thread: ThreadId,
}

impl StuckActorInfo {
    /// Returns the actor's meta.
    pub fn meta(&self) -> (meta: &ActorMeta)
        ensures
            *meta == self.meta,
    {
        &self.meta
    }

    /// Returns a thread where the actor runs.
    pub fn thread(&self) -> (thread: ThreadId)
        ensures
            thread == self.thread,
    {
        self.thread
    }
}

/// What a thread is doing.
#[derive(Debug)]
pub struct PerThread {
    pub thread: ThreadId,
    pub meta: Option<ActorMeta>,
    pub epoch: Epoch,
}

/// What a thread was doing at the last check.
#[derive(Debug)]
pub struct Checked {
    pub thread: ThreadId,
    pub meta: ActorMeta,
    pub epoch: Epoch,
}

/// Compares what threads are doing with what they were doing before.
#[derive(Debug)]
pub struct StuckDetector {
    pub slots: Vec<PerThread>,
    pub last_check: Vec<Checked>,
}

pub open spec fn same_meta(a: ActorMeta, b: ActorMeta) -> bool {
    a.group@ == b.group@ && a.key@ == b.key@
}

/// The last record about the thread.
pub open spec fn checked_of(list: Seq<Checked>, thread: ThreadId) -> Option<Checked>
    decreases list.len(),
{
    if list.len() == 0 {
        None
    } else if list.last().thread == thread {
        Some(list.last())
    } else {
        checked_of(list.drop_last(), thread)
    }
}

/// Whether a thread is still doing the same as at the last check.
pub open spec fn is_stuck(last_check: Seq<Checked>, slot: PerThread) -> bool {
    &&& slot.meta is Some
    &&& checked_of(last_check, slot.thread) matches Some(checked) && checked.epoch == slot.epoch
        && same_meta(checked.meta, slot.meta->0)
}

/// Slots of stuck threads, in order.
pub open spec fn stuck_slots(last_check: Seq<Checked>, slots: Seq<PerThread>) -> Seq<PerThread>
    decreases slots.len(),
{
    if slots.len() == 0 {
        Seq::empty()
    } else {
        let rest = stuck_slots(last_check, slots.drop_last());
        if is_stuck(last_check, slots.last()) {
            rest.push(slots.last())
        } else {
            rest
        }
    }
}

/// Slots of threads that are doing something, in order.
pub open spec fn busy_slots(slots: Seq<PerThread>) -> Seq<PerThread>
    decreases slots.len(),
{
    if slots.len() == 0 {
        Seq::empty()
    } else {
        let rest = busy_slots(slots.drop_last());
        if slots.last().meta is Some {
            rest.push(slots.last())
        } else {
            rest
        }
    }
}

/// Whether records describe slots.
pub open spec fn describes(list: Seq<Checked>, slots: Seq<PerThread>) -> bool {
    &&& list.len() == slots.len()
    &&& forall|i: int|
        0 <= i < list.len() ==> {
            &&& (#[trigger] list[i]).thread == slots[i].thread
            &&& list[i].epoch == slots[i].epoch
            &&& slots[i].meta == Some(list[i].meta)
        }
}

/// Whether infos describe slots.
pub open spec fn reports(infos: Seq<StuckActorInfo>, slots: Seq<PerThread>) -> bool {
    &&& infos.len() == slots.len()
    &&& forall|i: int|
        0 <= i < infos.len() ==> {
            &&& (#[trigger] infos[i]).thread == slots[i].thread
            &&& slots[i].meta == Some(infos[i].meta)
        }
}

impl StuckDetector {
    pub fn new() -> (this: StuckDetector)
        ensures
            this.slots.len() == 0,
            this.last_check.len() == 0,
    {
        StuckDetector { slots: Vec::new(), last_check: Vec::new() }
    }

    /// Registers a slot for a new thread.
    pub fn add_slot(&mut self, thread: ThreadId) -> (slot_no: usize)
        ensures
            slot_no == old(self).slots.len(),
            final(self).slots@ == old(self).slots@.push(
                PerThread { thread, meta: None, epoch: 0 },
            ),
            final(self).last_check == old(self).last_check,
    {
        let slot_no: usize = self.slots.len();
        self.slots.push(PerThread { thread, meta: None, epoch: 0 });
        slot_no
    }

    /// The thread is about to poll an actor. A slot can be reused by another
    /// thread, then it starts from scratch.
    pub fn enter(&mut self, slot_no: usize, thread: ThreadId, meta: Option<ActorMeta>)
        requires
            slot_no < old(self).slots.len(),
        ensures
            final(self).last_check == old(self).last_check,
            ({
                let before = old(self).slots[slot_no as int];
                let epoch = if before.thread == thread {
                    before.epoch
                } else {
                    0
                };
                final(self).slots@ == old(self).slots@.update(
                    slot_no as int,
                    PerThread {
                        thread,
                        meta,
                        epoch: if epoch == u32::MAX {
                            0
                        } else {
                            (epoch + 1) as u32
                        },
                    },
                )
            }),
    {
        let epoch: u32 = if self.slots[slot_no].thread == thread {
            self.slots[slot_no].epoch
        } else {
            0
        };
        self.slots.set(slot_no, PerThread { thread, meta, epoch: epoch.wrapping_add(1) });
    }

    /// The thread has polled an actor.
    pub fn exit(&mut self, slot_no: usize)
        requires
            slot_no < old(self).slots.len(),
        ensures
            final(self).last_check == old(self).last_check,
            final(self).slots@ == old(self).slots@.update(
                slot_no as int,
                PerThread { meta: None, ..old(self).slots[slot_no as int] },
            ),
    {
        let thread: u64 = self.slots[slot_no].thread;
        let epoch: u32 = self.slots[slot_no].epoch;
        self.slots.set(slot_no, PerThread { thread, meta: None, epoch });
    }

    fn find(&self, thread: ThreadId) -> (res: Option<&Checked>)
        ensures
            match checked_of(self.last_check@, thread) {
                Some(checked) => res == Some(&checked),
                None => res is None,
            },
    {
        let mut i: usize = self.last_check.len();
        assert(self.last_check@.take(i as int) =~= self.last_check@);
        while i > 0
            invariant
                i <= self.last_check.len(),
                checked_of(self.last_check@, thread) == checked_of(
                    self.last_check@.take(i as int),
                    thread,
                ),
            decreases i,
        {
            i -= 1;
            let ghost rest = self.last_check@.take(i + 1);
            assert(rest.drop_last() =~= self.last_check@.take(i as int));
            assert(rest.last() == self.last_check@[i as int]);
            if self.last_check[i].thread == thread {
                return Some(&self.last_check[i]);
            }
        }
        None
    }

    /// Returns actors that have been polled since the last check. It should be
    /// called periodically.
    pub fn check(&mut self) -> (stuck: Vec<StuckActorInfo>)
        ensures
            final(self).slots == old(self).slots,
            describes(final(self).last_check@, busy_slots(old(self).slots@)),
            reports(stuck@, stuck_slots(old(self).last_check@, old(self).slots@)),
    {
        let mut check: Vec<Checked> = Vec::new();
        let mut stuck: Vec<StuckActorInfo> = Vec::new();
        let mut i: usize = 0;
        assert(self.slots@.take(0).len() == 0);
        while i < self.slots.len()
            invariant
                i <= self.slots.len(),
                *self == *old(self),
                describes(check@, busy_slots(self.slots@.take(i as int))),
                reports(stuck@, stuck_slots(self.last_check@, self.slots@.take(i as int))),
            decreases self.slots.len() - i,
        {
            let current = &self.slots[i];
            let ghost next = self.slots@.take(i + 1);
            assert(next.drop_last() =~= self.slots@.take(i as int));
            assert(next.last() == self.slots@[i as int]);
            i += 1;

            let current_meta = match &current.meta {
                Some(meta) => meta,
                None => continue ,
            };
            let thread: u64 = current.thread;
            let epoch: u32 = current.epoch;
            check.push(Checked { thread, meta: current_meta.duplicate(), epoch });

            let prev = match self.find(thread) {
                Some(prev) => prev,
                None => continue ,
            };
            if epoch == prev.epoch && current_meta.group == prev.meta.group && current_meta.key
                == prev.meta.key {
                stuck.push(StuckActorInfo { meta: current_meta.duplicate(), thread });
            }
        }
        assert(self.slots@.take(i as int) =~= self.slots@);

        self.last_check = check;
        stuck
    }
}

// === Laws ===

/// Whether slots belong to different threads.
pub open spec fn are_different(slots: Seq<PerThread>) -> bool {
    forall|i: int, j: int|
        0 <= i < j < slots.len() ==> (#[trigger] slots[i]).thread != (#[trigger] slots[j]).thread
}

proof fn lemma_checked(slots: Seq<PerThread>, list: Seq<Checked>, i: int)
    requires
        are_different(slots),
        describes(list, busy_slots(slots)),
        0 <= i < slots.len(),
        slots[i].meta is Some,
    ensures
        is_stuck(list, slots[i]),
    decreases slots.len(),
{
    let rest = slots.drop_last();
    let busy = busy_slots(slots);
    if slots.last().meta is Some {
        assert(list.last() == list[list.len() - 1]);
        assert(busy[busy.len() - 1] == slots.last());
        if i < slots.len() - 1 {
            assert(slots[i].thread != slots[slots.len() - 1].thread);
            assert(describes(list.drop_last(), busy_slots(rest))) by {
                assert forall|k: int| 0 <= k < list.drop_last().len() implies {
                    &&& (#[trigger] list.drop_last()[k]).thread == busy_slots(rest)[k].thread
                    &&& list.drop_last()[k].epoch == busy_slots(rest)[k].epoch
                    &&& busy_slots(rest)[k].meta == Some(list.drop_last()[k].meta)
                } by {
                    assert(list[k].thread == busy[k].thread);
                }
            }
            lemma_checked(rest, list.drop_last(), i);
            assert(rest[i] == slots[i]);
        }
    } else {
        lemma_checked(rest, list, i);
        assert(rest[i] == slots[i]);
    }
}

proof fn lemma_all_stuck(slots: Seq<PerThread>, list: Seq<Checked>)
    requires
        forall|i: int|
            0 <= i < slots.len() && (#[trigger] slots[i]).meta is Some ==> is_stuck(list, slots[i]),
    ensures
        stuck_slots(list, slots) == busy_slots(slots),
    decreases slots.len(),
{
    if slots.len() > 0 {
        let rest = slots.drop_last();
        assert forall|i: int| 0 <= i < rest.len() && (#[trigger] rest[i]).meta is Some implies is_stuck(
            list,
            rest[i],
        ) by {
            assert(slots[i].meta is Some);
        }
        lemma_all_stuck(rest, list);
        assert(slots.last() == slots[slots.len() - 1]);
    }
}

/// If nothing has changed since the last check, everyone who is being polled is
/// stuck.
pub proof fn no_progress_is_stuck(slots: Seq<PerThread>, last_check: Seq<Checked>)
    requires
        are_different(slots),
        describes(last_check, busy_slots(slots)),
    ensures
        stuck_slots(last_check, slots) == busy_slots(slots),
{
    assert forall|i: int| 0 <= i < slots.len() && (#[trigger] slots[i]).meta is Some implies is_stuck(
        last_check,
        slots[i],
    ) by {
        lemma_checked(slots, last_check, i);
    }
    lemma_all_stuck(slots, last_check);
}

/// An actor that has returned control since the last check isn't stuck: either
/// the thread does nothing or its epoch is different.
pub proof fn progress_is_not_stuck(last_check: Seq<Checked>, slot: PerThread)
    requires
        checked_of(last_check, slot.thread) matches Some(checked) ==> checked.epoch != slot.epoch,
    ensures
        !is_stuck(last_check, slot),
{
}

proof fn lemma_busy(slots: Seq<PerThread>, k: int)
    requires
        0 <= k < busy_slots(slots).len(),
    ensures
        busy_slots(slots)[k].meta is Some,
        exists|i: int| 0 <= i < slots.len() && #[trigger] slots[i] == busy_slots(slots)[k],
    decreases slots.len(),
{
    let rest = slots.drop_last();
    assert(slots[slots.len() - 1] == slots.last());
    if k < busy_slots(rest).len() {
        lemma_busy(rest, k);
        let i = choose|i: int| 0 <= i < rest.len() && #[trigger] rest[i] == busy_slots(rest)[k];
        assert(slots[i] == rest[i]);
    }
}

proof fn lemma_reported(last_check: Seq<Checked>, slots: Seq<PerThread>, k: int)
    requires
        0 <= k < stuck_slots(last_check, slots).len(),
    ensures
        is_stuck(last_check, stuck_slots(last_check, slots)[k]),
        exists|i: int|
            0 <= i < slots.len() && #[trigger] slots[i] == stuck_slots(last_check, slots)[k],
    decreases slots.len(),
{
    let rest = slots.drop_last();
    assert(slots[slots.len() - 1] == slots.last());
    let before = stuck_slots(last_check, rest);
    if k < before.len() {
        lemma_reported(last_check, rest, k);
        let i = choose|i: int| 0 <= i < rest.len() && #[trigger] rest[i] == before[k];
        assert(slots[i] == rest[i]);
    }
}

proof fn lemma_stuck_is_reported(last_check: Seq<Checked>, slots: Seq<PerThread>, i: int)
    requires
        0 <= i < slots.len(),
        is_stuck(last_check, slots[i]),
    ensures
        exists|k: int|
            0 <= k < stuck_slots(last_check, slots).len() && #[trigger] stuck_slots(
                last_check,
                slots,
            )[k] == slots[i],
    decreases slots.len(),
{
    let rest = slots.drop_last();
    let before = stuck_slots(last_check, rest);
    let all = stuck_slots(last_check, slots);
    if i < rest.len() {
        lemma_stuck_is_reported(last_check, rest, i);
        assert(rest[i] == slots[i]);
        let k = choose|k: int| 0 <= k < before.len() && #[trigger] before[k] == rest[i];
        assert(all[k] == slots[i]);
    } else {
        assert(all[all.len() - 1] == slots[i]);
    }
}

proof fn lemma_checked_is_busy(list: Seq<Checked>, slots: Seq<PerThread>, thread: ThreadId)
    requires
        describes(list, busy_slots(slots)),
        checked_of(list, thread) is Some,
    ensures
        exists|i: int|
            0 <= i < slots.len() && (#[trigger] slots[i]).thread == thread && slots[i].meta is Some,
{
    lemma_checked_of(list, thread);
    let k = choose|k: int| 0 <= k < list.len() && (#[trigger] list[k]).thread == thread;
    lemma_busy(slots, k);
}

proof fn lemma_checked_of(list: Seq<Checked>, thread: ThreadId)
    requires
        checked_of(list, thread) is Some,
    ensures
        exists|k: int| 0 <= k < list.len() && (#[trigger] list[k]).thread == thread,
    decreases list.len(),
{
    assert(list[list.len() - 1] == list.last());
    if list.last().thread != thread {
        lemma_checked_of(list.drop_last(), thread);
        let k = choose|k: int|
            0 <= k < list.drop_last().len() && (#[trigger] list.drop_last()[k]).thread == thread;
        assert(list[k].thread == thread);
    }
}

/// What is reported by the second of two checks: an actor that is being polled by the
/// same thread all the time, that is in the same epoch. Actors that have returned
/// control, and actors that have been entered in the meantime, aren't reported.
pub proof fn only_stuck_actors_are_reported(
    first: &mut StuckDetector,
    second: &mut StuckDetector,
    a: Vec<StuckActorInfo>,
    b: Vec<StuckActorInfo>,
    i: int,
    j: int,
)
    requires
        are_different(old(first).slots@),
        are_different(old(second).slots@),
        call_ensures(StuckDetector::check, (first,), a),
        old(second).last_check == final(first).last_check,
        call_ensures(StuckDetector::check, (second,), b),
        0 <= i < old(first).slots@.len(),
        0 <= j < old(second).slots@.len(),
        old(first).slots@[i].thread == old(second).slots@[j].thread,
    ensures
        ({
            let before = old(first).slots@[i];
            let now = old(second).slots@[j];
            let is_reported = exists|k: int|
                0 <= k < b@.len() && (#[trigger] b@[k]).thread == now.thread;
            &&& is_reported <==> before.meta is Some && now.meta is Some && before.epoch
                == now.epoch && before.meta->0.group@ == now.meta->0.group@ && before.meta->0.key@
                == now.meta->0.key@
            &&& forall|k: int|
                0 <= k < b@.len() && (#[trigger] b@[k]).thread == now.thread ==> now.meta == Some(
                    b@[k].meta,
                )
        }),
        final(second).slots == old(second).slots,
{
    let list = old(second).last_check@;
    let x = old(first).slots@;
    let y = old(second).slots@;
    let stuck = stuck_slots(list, y);
    if x[i].meta is Some {
        lemma_checked(x, list, i);
    } else if checked_of(list, y[j].thread) is Some {
        lemma_checked_is_busy(list, x, y[j].thread);
        let k = choose|k: int|
            0 <= k < x.len() && (#[trigger] x[k]).thread == y[j].thread && x[k].meta is Some;
        if k < i {
            assert(x[k].thread != x[i].thread);
        } else {
            assert(x[i].thread != x[k].thread);
        }
    }
    if is_stuck(list, y[j]) {
        lemma_stuck_is_reported(list, y, j);
        let k = choose|k: int| 0 <= k < stuck.len() && #[trigger] stuck[k] == y[j];
        assert(b@[k].thread == y[j].thread);
    }
    assert forall|k: int| 0 <= k < b@.len() && (#[trigger] b@[k]).thread == y[j].thread implies {
        &&& stuck[k] == y[j]
        &&& is_stuck(list, y[j])
    } by {
        assert(b@[k].thread == stuck[k].thread);
        lemma_reported(list, y, k);
        let l = choose|l: int| 0 <= l < y.len() && #[trigger] y[l] == stuck[k];
        if l < j {
            assert(y[l].thread != y[j].thread);
        }
        if j < l {
            assert(y[j].thread != y[l].thread);
        }
    }
}

/// Nothing is reported by the first check, and threads that have been idle at the last
/// check aren't reported.
pub proof fn nothing_is_reported_at_first(fresh: StuckDetector, detector: &mut StuckDetector, stuck: Vec<StuckActorInfo>)
    requires
        call_ensures(StuckDetector::new, (), fresh),
        old(detector).last_check@ == fresh.last_check@,
        call_ensures(StuckDetector::check, (detector,), stuck),
    ensures
        fresh.slots@.len() == 0,
        stuck@.len() == 0,
{
    if stuck@.len() > 0 {
        lemma_reported(old(detector).last_check@, old(detector).slots@, 0);
    }
}

/// Every entering begins a new epoch of the slot, exiting ends polling. Other slots
/// aren't touched.
pub proof fn entering_begins_epoch(
    detector: &mut StuckDetector,
    entering: &mut StuckDetector,
    exiting: &mut StuckDetector,
    thread: ThreadId,
    slot_no: usize,
    other: int,
    next: ThreadId,
    meta: Option<ActorMeta>,
)
    requires
        call_ensures(StuckDetector::add_slot, (detector, thread), slot_no),
        old(entering).slots@.len() > slot_no,
        call_ensures(StuckDetector::enter, (entering, slot_no, next, meta), ()),
        *old(exiting) == *final(entering),
        call_ensures(StuckDetector::exit, (exiting, slot_no), ()),
        0 <= other < old(entering).slots@.len(),
        other != slot_no,
    ensures
        slot_no == old(detector).slots@.len(),
        final(detector).slots@.len() == slot_no + 1,
        final(detector).slots@[slot_no as int].thread == thread,
        final(detector).slots@[slot_no as int].meta is None,
        ({
            let before = old(entering).slots@[slot_no as int];
            let entered = final(entering).slots@[slot_no as int];
            let exited = final(exiting).slots@[slot_no as int];
            &&& entered.thread == next && entered.meta == meta
            &&& before.thread == next ==> entered.epoch != before.epoch
            &&& before.thread == next && before.epoch < u32::MAX ==> entered.epoch == before.epoch
                + 1
            &&& before.thread != next ==> entered.epoch == 1
            &&& exited.thread == next && exited.meta is None && exited.epoch == entered.epoch
        }),
        final(entering).slots@[other] == old(entering).slots@[other],
        final(exiting).slots@[other] == old(entering).slots@[other],
        final(exiting).last_check == old(entering).last_check,
{
}

/// A report tells who is stuck and where.
pub proof fn report_tells_actor_and_thread(info: StuckActorInfo, meta: &ActorMeta, thread: ThreadId)
    requires
        call_ensures(StuckActorInfo::meta, (&info,), meta),
        call_ensures(StuckActorInfo::thread, (&info,), thread),
    ensures
        *meta == info.meta && thread == info.thread,
{
}

} // verus!
