use std::collections::VecDeque;

use vstd::prelude::*;

verus! {

pub type ShardNo = usize;

/// How many dumps a part holds.
pub const PART_CAPACITY: usize = 8191;

// === Part ===

/// A piece of a queue of dumps.
#[derive(Debug)]
pub struct Part<D> {
    pub items: VecDeque<D>,
}

impl<D> Part<D> {
    pub fn new() -> (this: Part<D>)
        ensures
            this.items@ == Seq::<D>::empty(),
    {
        Part { items: VecDeque::with_capacity(PART_CAPACITY) }
    }

    pub fn is_empty(&self) -> (res: bool)
        ensures
            res == (self.items@.len() == 0),
    {
        self.items.len() == 0
    }

    pub fn is_full(&self) -> (res: bool)
        ensures
            res == (self.items@.len() == PART_CAPACITY),
    {
        self.items.len() == PART_CAPACITY
    }

    pub fn push(&mut self, dump: D)
        ensures
            final(self).items@ == old(self).items@.push(dump),
    {
        self.items.push_back(dump);
    }

    pub fn pop(&mut self) -> (dump: Option<D>)
        ensures
            match dump {
                Some(dump) => {
                    &&& old(self).items@.len() > 0
                    &&& dump == old(self).items@[0]
                    &&& final(self).items@ == old(self).items@.skip(1)
                },
                None => old(self).items@.len() == 0 && final(self).items@ == old(self).items@,
            },
    {
        let dump = self.items.pop_front();
        assert(old(self).items@.len() > 0 ==> self.items@ =~= old(self).items@.skip(1));
        dump
    }

    pub fn clear(&mut self)
        ensures
            final(self).items@ == Seq::<D>::empty(),
    {
        self.items.clear();
    }
}

// === Fund ===

/// Parts of a queue, from the oldest to the newest.
pub type Queue<D> = Seq<Seq<D>>;

pub open spec fn queue_view<D>(queue: VecDeque<Part<D>>) -> Queue<D> {
    queue@.map_values(|part: Part<D>| part.items@)
}

/// The last queue among those with the maximum number of parts.
pub open spec fn most_filled<D>(queues: Seq<Queue<D>>) -> int
    decreases queues.len(),
{
    if queues.len() <= 1 {
        0
    } else {
        let best = most_filled(queues.drop_last());
        if queues.last().len() >= queues[best].len() {
            queues.len() - 1
        } else {
            best
        }
    }
}

/// Queues without the oldest part of the most filled one.
pub open spec fn without_oldest<D>(queues: Seq<Queue<D>>) -> Seq<Queue<D>> {
    let i = most_filled(queues);
    queues.update(i, queues[i].skip(1))
}

/// Whether there is a filled part.
pub open spec fn has_filled<D>(queues: Seq<Queue<D>>) -> bool {
    queues.len() > 0 && queues[most_filled(queues)].len() > 0
}

/// How many parts queues hold.
pub open spec fn filled_count<D>(queues: Seq<Queue<D>>) -> nat
    decreases queues.len(),
{
    if queues.len() == 0 {
        0
    } else {
        filled_count(queues.drop_last()) + queues.last().len()
    }
}

/// `count` if it's positive, but at most `limit`.
pub open spec fn at_most(count: int, limit: int) -> int {
    if count <= 0 {
        0
    } else if count <= limit {
        count
    } else {
        limit
    }
}

/// Keeps parts that aren't active.
#[derive(Debug)]
pub struct Fund<D> {
    pub max_part_count: usize,
    /// Empty + filled + active + used by `Drain`.
    pub part_count: usize,
    pub empty_parts: Vec<Part<D>>,
    pub filled_parts: Vec<VecDeque<Part<D>>>,
}

impl<D> Fund<D> {
    /// Filled parts of all shards.
    pub open spec fn queues(&self) -> Seq<Queue<D>> {
        self.filled_parts@.map_values(|queue: VecDeque<Part<D>>| queue_view(queue))
    }

    /// How many parts are active or being drained.
    pub open spec fn used_count(&self) -> int {
        self.part_count - self.empty_parts.len() - filled_count(self.queues())
    }

    pub open spec fn wf(&self) -> bool {
        forall|i: int| 0 <= i < self.empty_parts.len() ==> (#[trigger] self.empty_parts[i]).items@.len()
            == 0
    }

    pub fn new(max_part_count: usize) -> (this: Fund<D>)
        ensures
            this.wf(),
            this.max_part_count == max_part_count,
            this.queues() == Seq::<Queue<D>>::empty(),
            this.used_count() == 0,
            this.part_count == 0,
            this.empty_parts.len() == 0,
    {
        let this = Fund {
            max_part_count,
            part_count: 0,
            empty_parts: Vec::with_capacity(128),
            filled_parts: Vec::with_capacity(64),
        };
        assert(this.queues() =~= Seq::empty());
        this
    }

    /// How many empty parts must be dropped because of the limit.
    pub open spec fn extra_empty(&self, max_part_count: usize) -> int {
        at_most(self.part_count - max_part_count, self.empty_parts.len() as int)
    }

    /// How many filled parts must be dropped as well.
    pub open spec fn extra_filled(&self, max_part_count: usize) -> int {
        at_most(
            self.part_count - self.empty_parts.len() - max_part_count,
            filled_count(self.queues()) as int,
        )
    }

    /// Whether the limit is changed and no more parts are dropped than it needs.
    pub open spec fn is_configured(&self, before: Fund<D>, max_part_count: usize) -> bool {
        let empty = before.extra_empty(max_part_count);
        let filled = before.extra_filled(max_part_count);
        &&& self.max_part_count == max_part_count
        &&& self.part_count == before.part_count - empty - filled
        &&& self.empty_parts@ == before.empty_parts@.take(before.empty_parts.len() - empty)
        &&& self.queues() == after_drops(before.queues(), filled)
        &&& filled_count(self.queues()) == filled_count(before.queues()) - filled
        &&& self.used_count() == before.used_count()
    }

    /// Changes the limit: extra empty parts and then the oldest filled parts are
    /// dropped.
    pub fn configure(&mut self, max_part_count: usize)
        requires
            old(self).wf(),
        ensures
            final(self).wf(),
            final(self).is_configured(*old(self), max_part_count),
            final(self).part_count <= max_part_count || final(self).empty_parts.len() == 0
                && !has_filled(final(self).queues()),
    {
        while self.part_count > max_part_count && self.empty_parts.len() > 0
            invariant
                self.wf(),
                self.queues() == old(self).queues(),
                self.filled_parts == old(self).filled_parts,
                self.used_count() == old(self).used_count(),
                self.part_count - self.empty_parts.len() == old(self).part_count - old(self).empty_parts.len(),
                self.empty_parts.len() <= old(self).empty_parts.len(),
                self.empty_parts@ == old(self).empty_parts@.take(self.empty_parts.len() as int),
                self.part_count <= old(self).part_count,
                self.part_count < old(self).part_count ==> self.part_count >= max_part_count,
            decreases self.empty_parts.len(),
        {
            let _ = self.empty_parts.pop();
            self.part_count -= 1;
        }

        let ghost mut dropped: int = 0;
        let ghost middle = *self;
        let ghost queues = self.queues();
        let mut is_exhausted: bool = false;
        while self.part_count > max_part_count && !is_exhausted
            invariant
                self.wf(),
                self.used_count() == middle.used_count(),
                self.empty_parts == middle.empty_parts,
                dropped >= 0,
                dropped > 0 ==> self.part_count >= max_part_count && middle.empty_parts.len() == 0,
                self.part_count == middle.part_count - dropped,
                self.part_count > max_part_count ==> self.empty_parts.len() == 0,
                queues == middle.queues(),
                self.queues() == after_drops(queues, dropped),
                filled_count(self.queues()) == filled_count(queues) - dropped,
                is_exhausted ==> !has_filled(self.queues()),
            decreases self.part_count, (if is_exhausted { 0int } else { 1int }),
        {
            match self.clear_most_filled() {
                Some(_) => {
                    self.part_count -= 1;
                    proof {
                        dropped = dropped + 1;
                    }
                },
                None => is_exhausted = true,
            }
        }
        proof {
            if is_exhausted {
                lemma_nothing_filled(self.queues());
            }
            assert(dropped == old(self).extra_filled(max_part_count));
        }

        self.max_part_count = max_part_count;
    }

    /// Registers a new shard without filled parts.
    pub fn add_shard(&mut self) -> (shard_no: ShardNo)
        requires
            old(self).wf(),
        ensures
            final(self).wf(),
            shard_no == old(self).queues().len(),
            final(self).queues() == old(self).queues().push(Seq::empty()),
            final(self).used_count() == old(self).used_count(),
            final(self).part_count == old(self).part_count,
            final(self).max_part_count == old(self).max_part_count,
            final(self).empty_parts == old(self).empty_parts,
    {
        let shard_no: usize = self.filled_parts.len();
        let queue: VecDeque<Part<D>> = VecDeque::new();
        assert(queue_view(queue) =~= Seq::empty());
        self.filled_parts.push(queue);
        proof {
            assert(self.queues() =~= old(self).queues().push(Seq::empty()));
            assert(self.queues().drop_last() =~= old(self).queues());
        }
        shard_no
    }

    /// Adds a filled part as the newest one.
    pub fn add_filled_part(&mut self, shard_no: ShardNo, part: Part<D>)
        requires
            old(self).wf(),
            shard_no < old(self).queues().len(),
            part.items@.len() > 0,
        ensures
            final(self).wf(),
            final(self).queues() == old(self).queues().update(
                shard_no as int,
                old(self).queues()[shard_no as int].push(part.items@),
            ),
            final(self).used_count() == old(self).used_count() - 1,
            final(self).part_count == old(self).part_count,
            final(self).max_part_count == old(self).max_part_count,
            final(self).empty_parts == old(self).empty_parts,
    {
        self.filled_parts[shard_no].push_back(part);
        proof {
            let queue = old(self).queues()[shard_no as int].push(part.items@);
            assert(queue_view(self.filled_parts[shard_no as int]) =~= queue);
            assert(self.queues() =~= old(self).queues().update(shard_no as int, queue));
            lemma_count_update(old(self).queues(), shard_no as int, queue);
        }
    }

    /// Takes the oldest filled part.
    pub fn get_filled_part(&mut self, shard_no: ShardNo) -> (part: Option<Part<D>>)
        requires
            old(self).wf(),
            shard_no < old(self).queues().len(),
        ensures
            final(self).wf(),
            final(self).part_count == old(self).part_count,
            final(self).max_part_count == old(self).max_part_count,
            final(self).empty_parts == old(self).empty_parts,
            match part {
                Some(part) => {
                    let queue = old(self).queues()[shard_no as int];
                    &&& queue.len() > 0
                    &&& part.items@ == queue[0]
                    &&& final(self).queues() == old(self).queues().update(
                        shard_no as int,
                        queue.skip(1),
                    )
                    &&& final(self).used_count() == old(self).used_count() + 1
                },
                None => {
                    &&& old(self).queues()[shard_no as int].len() == 0
                    &&& final(self).queues() == old(self).queues()
                    &&& final(self).used_count() == old(self).used_count()
                },
            },
    {
        let part = self.filled_parts[shard_no].pop_front();
        proof {
            let old_queue = old(self).queues()[shard_no as int];
            if part is Some {
                assert(queue_view(self.filled_parts[shard_no as int]) =~= old_queue.skip(1));
                assert(self.queues() =~= old(self).queues().update(
                    shard_no as int,
                    old_queue.skip(1),
                ));
                lemma_count_update(old(self).queues(), shard_no as int, old_queue.skip(1));
            } else {
                assert(queue_view(self.filled_parts[shard_no as int]) =~= old_queue);
                assert(self.queues() =~= old(self).queues());
            }
        }
        part
    }

    /// Returns a part that isn't needed anymore.
    pub fn add_empty_part(&mut self, part: Part<D>)
        requires
            old(self).wf(),
            part.items@.len() == 0,
        ensures
            final(self).wf(),
            final(self).queues() == old(self).queues(),
            final(self).filled_parts == old(self).filled_parts,
            final(self).used_count() == old(self).used_count() - 1,
            final(self).part_count == old(self).part_count,
            final(self).max_part_count == old(self).max_part_count,
            final(self).empty_parts@ == old(self).empty_parts@.push(part),
    {
        self.empty_parts.push(part);
    }

    /// Whether the oldest part of the most filled shard is lost to get an empty
    /// part: there are no empty parts and the limit is reached.
    pub open spec fn loses_oldest(&self) -> bool {
        &&& self.empty_parts.len() == 0
        &&& self.part_count >= self.max_part_count
        &&& has_filled(self.queues())
    }

    /// Filled parts once an empty part is taken.
    pub open spec fn queues_after_get(&self) -> Seq<Queue<D>> {
        if self.loses_oldest() {
            without_oldest(self.queues())
        } else {
            self.queues()
        }
    }

    /// Empty parts once one of them is taken.
    pub open spec fn empty_after_get(&self) -> Seq<Part<D>> {
        if self.empty_parts.len() > 0 {
            self.empty_parts@.drop_last()
        } else {
            self.empty_parts@
        }
    }

    /// The number of parts once an empty part is taken.
    pub open spec fn count_after_get(&self) -> usize {
        if self.empty_parts.len() > 0 || self.loses_oldest() {
            self.part_count
        } else {
            (self.part_count + 1) as usize
        }
    }

    /// Whether `next` has no empty part that has been taken from here.
    pub open spec fn is_taken(&self, next: Fund<D>) -> bool {
        &&& next.max_part_count == self.max_part_count
        &&& next.part_count == self.count_after_get()
        &&& next.empty_parts@ == self.empty_after_get()
    }

    /// Whether only filled parts differ.
    pub open spec fn same_but_filled(&self, next: Fund<D>) -> bool {
        &&& next.max_part_count == self.max_part_count
        &&& next.part_count == self.part_count
        &&& next.empty_parts@ == self.empty_parts@
    }

    /// Takes an empty part: an existing one, the oldest part of the most filled
    /// shard if the limit is reached, or a new one.
    pub fn get_empty_part(&mut self) -> (part: Part<D>)
        requires
            old(self).wf(),
            old(self).part_count < usize::MAX,
        ensures
            final(self).wf(),
            part.items@ == Seq::<D>::empty(),
            final(self).queues() == old(self).queues_after_get(),
            final(self).used_count() == old(self).used_count() + 1,
            old(self).is_taken(*final(self)),
    {
        // Firstly, check the empty list.
        if let Some(part) = self.empty_parts.pop() {
            assert(part.items@ =~= Seq::empty());
            return part;
        }

        // If we have already reached the limit, try to find the most filled shard
        // and take his oldest part.
        if self.part_count >= self.max_part_count {
            if let Some(part) = self.clear_most_filled() {
                return part;
            }
        }

        // Otherwise, we have only active parts or the limit hasn't reached,
        // so allocate a new part.
        self.part_count += 1;
        Part::new()
    }

    fn clear_most_filled(&mut self) -> (part: Option<Part<D>>)
        requires
            old(self).wf(),
        ensures
            final(self).wf(),
            final(self).part_count == old(self).part_count,
            final(self).max_part_count == old(self).max_part_count,
            final(self).empty_parts == old(self).empty_parts,
            match part {
                Some(part) => {
                    &&& has_filled(old(self).queues())
                    &&& part.items@ == Seq::<D>::empty()
                    &&& final(self).queues() == without_oldest(old(self).queues())
                    &&& final(self).used_count() == old(self).used_count() + 1
                },
                None => {
                    &&& !has_filled(old(self).queues())
                    &&& final(self).queues() == old(self).queues()
                    &&& final(self).used_count() == old(self).used_count()
                },
            },
    {
        if self.filled_parts.len() == 0 {
            return None;
        }

        let mut best: usize = 0;
        let mut i: usize = 1;
        let ghost queues = self.queues();
        assert(queues.take(1).len() <= 1);
        while i < self.filled_parts.len()
            invariant
                queues == self.queues(),
                *self == *old(self),
                1 <= i <= self.filled_parts.len(),
                best < i,
                best == most_filled(queues.take(i as int)),
            decreases self.filled_parts.len() - i,
        {
            proof {
                let next = queues.take(i + 1);
                assert(next.drop_last() =~= queues.take(i as int));
                assert(next.last() == queues[i as int]);
                assert(next[best as int] == queues[best as int]);
            }
            if self.filled_parts[i].len() >= self.filled_parts[best].len() {
                best = i;
            }
            i += 1;
        }
        assert(queues.take(i as int) =~= queues);

        match self.get_filled_part(best) {
            Some(part) => {
                let mut part = part;
                part.clear();
                Some(part)
            },
            None => None,
        }
    }
}

/// Queues after dropping of the oldest parts one by one, while there are ones.
pub open spec fn after_drops<D>(queues: Seq<Queue<D>>, count: int) -> Seq<Queue<D>>
    decreases count,
{
    if count <= 0 {
        queues
    } else {
        let before = after_drops(queues, count - 1);
        if has_filled(before) {
            without_oldest(before)
        } else {
            before
        }
    }
}

proof fn lemma_nothing_filled<D>(queues: Seq<Queue<D>>)
    requires
        !has_filled(queues),
    ensures
        filled_count(queues) == 0,
    decreases queues.len(),
{
    if queues.len() > 0 {
        lemma_most_filled(queues);
        let rest = queues.drop_last();
        if has_filled(rest) {
            lemma_most_filled(rest);
            assert(rest[most_filled(rest)] == queues[most_filled(rest)]);
        }
        lemma_nothing_filled(rest);
        assert(queues[queues.len() - 1] == queues.last());
    }
}

proof fn lemma_count_update<D>(queues: Seq<Queue<D>>, i: int, queue: Queue<D>)
    requires
        0 <= i < queues.len(),
    ensures
        filled_count(queues.update(i, queue)) == filled_count(queues) - queues[i].len()
            + queue.len(),
    decreases queues.len(),
{
    let next = queues.update(i, queue);
    if i == queues.len() - 1 {
        assert(next.drop_last() =~= queues.drop_last());
    } else {
        lemma_count_update(queues.drop_last(), i, queue);
        assert(next.drop_last() =~= queues.drop_last().update(i, queue));
    }
}

proof fn lemma_most_filled<D>(queues: Seq<Queue<D>>)
    requires
        queues.len() > 0,
    ensures
        0 <= most_filled(queues) < queues.len(),
        forall|i: int| 0 <= i < queues.len() ==> #[trigger] queues[i].len() <= queues[most_filled(
            queues,
        )].len(),
    decreases queues.len(),
{
    if queues.len() > 1 {
        let rest = queues.drop_last();
        lemma_most_filled(rest);
        assert forall|i: int| 0 <= i < queues.len() implies #[trigger] queues[i].len()
            <= queues[most_filled(queues)].len() by {
            if i < rest.len() {
                assert(rest[i].len() <= rest[most_filled(rest)].len());
                assert(queues[most_filled(rest)] == rest[most_filled(rest)]);
            }
        }
    }
}

// === Laws of the fund ===

/// The limit is exceeded only if all parts are in use.
pub proof fn parts_are_limited<D>(fund: Fund<D>)
    requires
        fund.part_count <= fund.max_part_count,
    ensures
        fund.count_after_get() <= fund.max_part_count || fund.empty_parts.len() == 0 && !has_filled(
            fund.queues(),
        ),
{
}

/// A part is lost only from a shard that has no fewer filled parts than others.
pub proof fn only_most_filled_loses<D>(queues: Seq<Queue<D>>, i: int)
    requires
        has_filled(queues),
        0 <= i < queues.len(),
    ensures
        without_oldest(queues).len() == queues.len(),
        queues[i].len() <= queues[most_filled(queues)].len(),
        without_oldest(queues)[i] == (if i == most_filled(queues) {
            queues[i].skip(1)
        } else {
            queues[i]
        }),
{
    lemma_most_filled(queues);
}

// === DumpRegistry ===

/// All dumps of a queue.
pub open spec fn flat<D>(queue: Queue<D>) -> Seq<D>
    decreases queue.len(),
{
    if queue.len() == 0 {
        Seq::empty()
    } else {
        flat(queue.drop_last()) + queue.last()
    }
}

proof fn lemma_flat_first<D>(queue: Queue<D>)
    requires
        queue.len() > 0,
    ensures
        flat(queue) == queue[0] + flat(queue.skip(1)),
    decreases queue.len(),
{
    let rest = queue.skip(1);
    if queue.len() == 1 {
        assert(queue.drop_last() =~= Seq::empty());
        assert(rest =~= Seq::empty());
        assert(flat(queue.drop_last()) =~= Seq::empty());
        assert(flat(queue) =~= queue[0] + flat(rest));
    } else {
        lemma_flat_first(queue.drop_last());
        assert(queue.drop_last().skip(1) =~= rest.drop_last());
        assert(rest.last() == queue.last());
        assert(flat(queue) =~= queue[0] + flat(rest));
    }
}

proof fn lemma_flat_push<D>(queue: Queue<D>, part: Seq<D>)
    ensures
        flat(queue.push(part)) == flat(queue) + part,
{
    assert(queue.push(part).drop_last() =~= queue);
}

/// Dumps of one class. Every thread has its own shard.
#[derive(Debug)]
pub struct DumpRegistry<D> {
    pub class: String,
    pub fund: Fund<D>,
    /// Active parts of shards.
    pub shards: Vec<Part<D>>,
}

impl<D> DumpRegistry<D> {
    pub open spec fn wf(&self) -> bool {
        &&& self.fund.wf()
        &&& self.fund.queues().len() == self.shards.len()
        &&& self.fund.used_count() >= self.shards.len()
        &&& forall|i: int|
            0 <= i < self.shards.len() ==> (#[trigger] self.shards[i]).items@.len() < PART_CAPACITY
        &&& no_empty_parts(self.fund.queues())
    }

    /// All dumps of a shard, from the oldest to the newest.
    pub open spec fn contents(&self, shard_no: int) -> Seq<D> {
        flat(self.fund.queues()[shard_no]) + self.shards[shard_no].items@
    }

    /// How many the oldest dumps of a shard are lost to get an empty part.
    pub open spec fn lost(&self, shard_no: int) -> int {
        if self.fund.loses_oldest() && shard_no == most_filled(self.fund.queues()) {
            self.fund.queues()[shard_no][0].len() as int
        } else {
            0
        }
    }

    pub fn new(class: String, max_part_count: usize) -> (this: DumpRegistry<D>)
        ensures
            this.wf(),
            this.class == class,
            this.shards.len() == 0,
            this.fund.max_part_count == max_part_count,
            this.fund.part_count == 0,
            this.fund.empty_parts.len() == 0,
    {
        DumpRegistry { class, fund: Fund::new(max_part_count), shards: Vec::new() }
    }

    pub fn class(&self) -> (class: &str)
        ensures
            class@ == self.class@,
    {
        self.class.as_str()
    }

    /// Changes the limit of parts, see [`Fund::configure`].
    pub fn configure(&mut self, max_part_count: usize)
        requires
            old(self).wf(),
        ensures
            final(self).wf(),
            final(self).class == old(self).class,
            final(self).shards == old(self).shards,
            final(self).fund.is_configured(old(self).fund, max_part_count),
            final(self).fund.part_count <= max_part_count || final(self).fund.empty_parts.len() == 0
                && !has_filled(final(self).fund.queues()),
    {
        self.fund.configure(max_part_count);
        proof {
            lemma_drops_keep(
                old(self).fund.queues(),
                old(self).fund.extra_filled(max_part_count),
            );
        }
    }

    /// Registers a shard for a new thread.
    pub fn make_shard(&mut self) -> (shard_no: ShardNo)
        requires
            old(self).wf(),
            old(self).fund.part_count < usize::MAX,
        ensures
            final(self).wf(),
            final(self).class == old(self).class,
            shard_no == old(self).shards.len(),
            final(self).shards.len() == old(self).shards.len() + 1,
            final(self).contents(shard_no as int) == Seq::<D>::empty(),
            forall|i: int|
                0 <= i < old(self).shards.len() ==> #[trigger] final(self).contents(i) == old(self).contents(i).skip(old(self).lost(i)),
            final(self).fund.queues() == old(self).fund.queues_after_get().push(Seq::empty()),
            old(self).fund.is_taken(final(self).fund),
    {
        let ghost before = *self;
        let ghost old_queues = self.fund.queues();
        let shard_no: usize = self.fund.add_shard();
        let ghost queues = self.fund.queues();
        proof {
            lemma_add_shard_keeps(old_queues);
            assert forall|i: int, j: int|
                0 <= i < queues.len() && 0 <= j < queues[i].len() implies #[trigger] queues[i][j].len()
                > 0 by {
                assert(queues[i] == old_queues[i]);
                assert(old_queues[i][j].len() > 0);
            }
        }
        let part = self.fund.get_empty_part();
        self.shards.push(part);
        proof {
            lemma_after_get(queues, self.fund.queues(), before.fund.loses_oldest());
            if has_filled(old_queues) {
                lemma_most_filled(old_queues);
            }
            assert(self.fund.queues() =~= before.fund.queues_after_get().push(Seq::empty()));
            assert(flat(self.fund.queues()[shard_no as int]) =~= Seq::empty());
            assert(self.contents(shard_no as int) =~= Seq::empty());
            assert forall|i: int| 0 <= i < before.shards.len() implies #[trigger] self.contents(i)
                == before.contents(i).skip(before.lost(i)) by {
                assert(queues[i] == old_queues[i]);
                assert(self.shards[i] == before.shards[i]);
                lemma_skip_lost(
                    queues[i],
                    self.fund.queues()[i],
                    self.shards[i].items@,
                    before.lost(i),
                );
            }
        }
        shard_no
    }

    /// Replaces the active part of a shard with an empty one.
    fn do_renew(&mut self, shard_no: ShardNo)
        requires
            old(self).fund.wf(),
            old(self).fund.queues().len() == old(self).shards.len(),
            old(self).fund.used_count() >= old(self).shards.len(),
            shard_no < old(self).shards.len(),
            old(self).fund.part_count < usize::MAX,
            0 < old(self).shards[shard_no as int].items@.len(),
            forall|i: int|
                0 <= i < old(self).shards.len() && i != shard_no ==> (
                #[trigger] old(self).shards[i]).items@.len() < PART_CAPACITY,
            no_empty_parts(old(self).fund.queues()),
        ensures
            final(self).wf(),
            final(self).class == old(self).class,
            final(self).shards.len() == old(self).shards.len(),
            final(self).shards[shard_no as int].items@ == Seq::<D>::empty(),
            final(self).fund.queues() == old(self).fund.queues_after_get().update(
                shard_no as int,
                old(self).fund.queues_after_get()[shard_no as int].push(
                    old(self).shards[shard_no as int].items@,
                ),
            ),
            old(self).fund.is_taken(final(self).fund),
            final(self).fund.used_count() == old(self).fund.used_count(),
            forall|i: int|
                0 <= i < old(self).shards.len() && i != shard_no ==> #[trigger] final(self).shards[i] == old(self).shards[i],
            forall|i: int|
                0 <= i < old(self).shards.len() ==> #[trigger] final(self).contents(i) == old(self).contents(i).skip(old(self).lost(i)),
    {
        let ghost before = *self;
        let ghost queues = self.fund.queues();
        let mut part = self.fund.get_empty_part();
        let ghost after_get = self.fund.queues();
        proof {
            lemma_after_get(queues, after_get, before.fund.loses_oldest());
        }
        std::mem::swap(&mut self.shards[shard_no], &mut part);
        self.fund.add_filled_part(shard_no, part);
        proof {
            let shard = shard_no as int;
            assert forall|i: int| 0 <= i < before.shards.len() implies #[trigger] self.contents(i)
                == before.contents(i).skip(before.lost(i)) by {
                lemma_skip_lost(
                    queues[i],
                    after_get[i],
                    before.shards[i].items@,
                    before.lost(i),
                );
                if i == shard {
                    lemma_flat_push(after_get[i], before.shards[i].items@);
                    assert(self.contents(i) =~= flat(after_get[i]) + before.shards[i].items@);
                } else {
                    assert(self.shards[i] == before.shards[i]);
                }
            }
            assert forall|i: int, j: int|
                0 <= i < self.fund.queues().len() && 0 <= j < self.fund.queues()[i].len() implies
                #[trigger] self.fund.queues()[i][j].len() > 0 by {
                if i == shard {
                    if j < after_get[i].len() {
                        assert(self.fund.queues()[i][j] == after_get[i][j]);
                    }
                } else {
                    assert(self.fund.queues()[i][j] == after_get[i][j]);
                }
            }
        }
    }

    /// Whether one more dump fills the current part of the shard.
    pub open spec fn fills_part(&self, shard_no: int) -> bool {
        self.shards[shard_no].items@.len() + 1 == PART_CAPACITY
    }

    /// Where the dump is: either in the active part or, if it has filled the part,
    /// in the newest filled one.
    pub open spec fn is_added(&self, next: DumpRegistry<D>, shard_no: int, dump: D) -> bool {
        let part = self.shards[shard_no].items@.push(dump);
        &&& next.class == self.class
        &&& next.shards.len() == self.shards.len()
        &&& forall|i: int|
            0 <= i < self.shards.len() && i != shard_no ==> #[trigger] next.shards[i]
                == self.shards[i]
        &&& if self.fills_part(shard_no) {
            let queues = self.fund.queues_after_get();
            &&& next.shards[shard_no].items@ == Seq::<D>::empty()
            &&& next.fund.queues() == queues.update(shard_no, queues[shard_no].push(part))
            &&& self.fund.is_taken(next.fund)
        } else {
            &&& next.shards[shard_no].items@ == part
            &&& next.fund == self.fund
        }
    }

    /// Adds a dump to the shard of the current thread.
    pub fn add(&mut self, shard_no: ShardNo, dump: D)
        requires
            old(self).wf(),
            shard_no < old(self).shards.len(),
            old(self).fund.part_count < usize::MAX,
        ensures
            final(self).wf(),
            old(self).is_added(*final(self), shard_no as int, dump),
            forall|i: int|
                0 <= i < old(self).shards.len() ==> #[trigger] final(self).contents(i) == (if i
                    == shard_no {
                    old(self).contents(i).push(dump)
                } else {
                    old(self).contents(i)
                }).skip(
                    if old(self).fills_part(shard_no as int) {
                        old(self).lost(i)
                    } else {
                        0
                    },
                ),
    {
        let ghost before = *self;
        self.shards[shard_no].push(dump);
        let ghost pushed = *self;
        proof {
            assert forall|i: int| 0 <= i < before.shards.len() implies #[trigger] pushed.contents(i)
                == (if i == shard_no {
                before.contents(i).push(dump)
            } else {
                before.contents(i)
            }) by {
                if i == shard_no {
                    assert(pushed.contents(i) =~= before.contents(i).push(dump));
                } else {
                    assert(pushed.shards[i] == before.shards[i]);
                }
            }
        }
        if self.shards[shard_no].is_full() {
            self.do_renew(shard_no);
            proof {
                assert forall|i: int| 0 <= i < before.shards.len() implies #[trigger] self.contents(
                    i,
                ) == (if i == shard_no {
                    before.contents(i).push(dump)
                } else {
                    before.contents(i)
                }).skip(before.lost(i)) by {
                    assert(self.contents(i) == pushed.contents(i).skip(pushed.lost(i)));
                }
            }
        } else {
            proof {
                assert forall|i: int| 0 <= i < before.shards.len() implies #[trigger] self.contents(
                    i,
                ) == (if i == shard_no {
                    before.contents(i).push(dump)
                } else {
                    before.contents(i)
                }).skip(0) by {
                    assert(self.contents(i) == pushed.contents(i));
                    assert(pushed.contents(i).skip(0) =~= pushed.contents(i));
                }
            }
        }
    }

    /// Whether registries hold the same in the same parts.
    pub open spec fn is_same(&self, other: &DumpRegistry<D>) -> bool {
        &&& self.class == other.class
        &&& self.shards == other.shards
        &&& self.fund.queues() == other.fund.queues()
        &&& self.fund.max_part_count == other.fund.max_part_count
        &&& self.fund.part_count == other.fund.part_count
        &&& self.fund.empty_parts == other.fund.empty_parts
    }

    /// What happens with parts once the oldest part of a shard is taken: a filled
    /// one, otherwise the active one, which is replaced with an empty one.
    pub open spec fn is_part_taken(&self, next: DumpRegistry<D>, shard_no: int) -> bool {
        let queues = self.fund.queues();
        &&& next.class == self.class
        &&& next.shards.len() == self.shards.len()
        &&& forall|i: int|
            0 <= i < self.shards.len() && i != shard_no ==> #[trigger] next.shards[i]
                == self.shards[i]
        &&& if queues[shard_no].len() > 0 {
            &&& next.shards[shard_no] == self.shards[shard_no]
            &&& next.fund.queues() == queues.update(shard_no, queues[shard_no].skip(1))
            &&& self.fund.same_but_filled(next.fund)
        } else {
            &&& next.shards[shard_no].items@ == Seq::<D>::empty()
            &&& next.fund.queues() == self.fund.queues_after_get()
            &&& self.fund.is_taken(next.fund)
        }
    }

    /// Takes the oldest part of a shard, `None` if the shard is empty.
    pub fn take_oldest_part(&mut self, shard_no: ShardNo) -> (part: Option<Part<D>>)
        requires
            old(self).wf(),
            shard_no < old(self).shards.len(),
            old(self).fund.part_count < usize::MAX,
        ensures
            final(self).wf(),
            final(self).class == old(self).class,
            final(self).shards.len() == old(self).shards.len(),
            part is Some <==> old(self).contents(shard_no as int).len() > 0,
            part matches Some(part) ==> {
                &&& part.items@.len() > 0
                &&& old(self).contents(shard_no as int) == part.items@ + final(self).contents(
                    shard_no as int,
                )
                &&& final(self).fund.used_count() > final(self).shards.len()
                &&& old(self).is_part_taken(*final(self), shard_no as int)
                &&& forall|i: int|
                    0 <= i < old(self).shards.len() && i != shard_no ==> #[trigger] final(self).contents(i) == old(self).contents(i).skip(
                        if old(self).fund.queues()[shard_no as int].len() > 0 {
                            0
                        } else {
                            old(self).lost(i)
                        },
                    )
            },
            part is None ==> final(self).is_same(old(self)),
    {
        let ghost before = *self;
        let ghost shard = shard_no as int;
        // Firstly, check filled parts.
        if let Some(part) = self.fund.get_filled_part(shard_no) {
            proof {
                lemma_flat_first(before.fund.queues()[shard]);
                assert(before.contents(shard) =~= part.items@ + self.contents(shard));
                assert forall|i: int|
                    0 <= i < before.shards.len() && i != shard implies #[trigger] self.contents(i)
                    == before.contents(i).skip(0) by {
                    assert(before.contents(i).skip(0) =~= before.contents(i));
                }
                assert forall|i: int, j: int|
                    0 <= i < self.fund.queues().len() && 0 <= j
                        < self.fund.queues()[i].len() implies #[trigger] self.fund.queues()[i][j].len()
                    > 0 by {
                    if i == shard {
                        assert(self.fund.queues()[i][j] == before.fund.queues()[i][j + 1]);
                    } else {
                        assert(self.fund.queues()[i][j] == before.fund.queues()[i][j]);
                    }
                }
            }
            return Some(part);
        }

        // Then, try to renew an active part if it's not empty.
        if self.shards[shard_no].is_empty() {
            proof {
                assert(before.contents(shard) =~= Seq::empty());
                assert(self.fund.queues() == before.fund.queues());
            }
            return None;
        }
        let ghost unchanged = *self;
        self.do_renew(shard_no);

        // If the active part has been renewed, check filled parts again.
        let ghost renewed = *self;
        let part = self.fund.get_filled_part(shard_no);
        proof {
            let queues = before.fund.queues();
            assert(queues[shard].len() == 0);
            if before.fund.loses_oldest() {
                lemma_most_filled(queues);
            }
            assert(before.fund.queues_after_get()[shard] =~= Seq::empty());
            assert(renewed.fund.queues()[shard] =~= seq![before.shards[shard].items@]);
            lemma_flat_first(renewed.fund.queues()[shard]);
            assert(self.fund.queues()[shard] =~= Seq::empty());
            assert(self.fund.queues() =~= before.fund.queues_after_get());
            assert(flat(queues[shard]) =~= Seq::empty());
            assert(flat(self.fund.queues()[shard]) =~= Seq::empty());
            assert(before.contents(shard) =~= before.shards[shard].items@);
            assert(self.contents(shard) =~= Seq::empty());
            assert(before.contents(shard) =~= part->0.items@ + self.contents(shard));
            assert forall|i: int| 0 <= i < before.shards.len() && i != shard implies #[trigger] self.contents(
                i,
            ) == before.contents(i).skip(before.lost(i)) by {
                assert(renewed.contents(i) == unchanged.contents(i).skip(unchanged.lost(i)));
                assert(self.contents(i) == renewed.contents(i));
            }
            assert forall|i: int, j: int|
                0 <= i < self.fund.queues().len() && 0 <= j < self.fund.queues()[i].len() implies
                #[trigger] self.fund.queues()[i][j].len() > 0 by {
                assert(self.fund.queues()[i][j] == renewed.fund.queues()[i][j]);
            }
        }
        part
    }
}

pub open spec fn no_empty_parts<D>(queues: Seq<Queue<D>>) -> bool {
    forall|i: int, j: int|
        0 <= i < queues.len() && 0 <= j < queues[i].len() ==> #[trigger] queues[i][j].len() > 0
}

proof fn lemma_after_get<D>(queues: Seq<Queue<D>>, after: Seq<Queue<D>>, loses: bool)
    requires
        loses ==> has_filled(queues) && after == without_oldest(queues),
        !loses ==> after == queues,
        no_empty_parts(queues),
    ensures
        after.len() == queues.len(),
        no_empty_parts(after),
        forall|i: int|
            0 <= i < queues.len() ==> #[trigger] after[i] == (if loses && i == most_filled(queues) {
                queues[i].skip(1)
            } else {
                queues[i]
            }),
{
    if loses {
        lemma_most_filled(queues);
        assert forall|i: int, j: int|
            0 <= i < after.len() && 0 <= j < after[i].len() implies #[trigger] after[i][j].len()
            > 0 by {
            if i == most_filled(queues) {
                assert(after[i][j] == queues[i][j + 1]);
            } else {
                assert(after[i][j] == queues[i][j]);
            }
        }
    }
}

proof fn lemma_drops_keep<D>(queues: Seq<Queue<D>>, count: int)
    requires
        no_empty_parts(queues),
    ensures
        after_drops(queues, count).len() == queues.len(),
        no_empty_parts(after_drops(queues, count)),
    decreases count,
{
    if count > 0 {
        lemma_drops_keep(queues, count - 1);
        let before = after_drops(queues, count - 1);
        lemma_after_get(before, after_drops(queues, count), has_filled(before));
    }
}

proof fn lemma_skip_lost<D>(queue: Queue<D>, after: Queue<D>, active: Seq<D>, lost: int)
    requires
        (lost == 0 && after == queue) || (queue.len() > 0 && after == queue.skip(1) && lost
            == queue[0].len()),
    ensures
        flat(after) + active == (flat(queue) + active).skip(lost),
{
    if after == queue && lost == 0 {
        assert((flat(queue) + active).skip(0) =~= flat(queue) + active);
    } else {
        lemma_flat_first(queue);
        assert((flat(queue) + active).skip(lost) =~= flat(after) + active);
    }
}

proof fn lemma_add_shard_keeps<D>(queues: Seq<Queue<D>>)
    ensures
        has_filled(queues.push(Seq::empty())) == has_filled(queues),
        has_filled(queues) ==> most_filled(queues.push(Seq::empty())) == most_filled(queues),
{
    let next = queues.push(Seq::empty());
    assert(next.drop_last() =~= queues);
    if queues.len() > 0 {
        lemma_most_filled(queues);
        assert(next[most_filled(queues)] == queues[most_filled(queues)]);
    }
}

// === Drain ===

/// A consuming iterator over dumps.
///
/// It iterates over shards and takes no more than one part per shard in a row
/// to ensure fairness. The iterator returns `None` if all shards are empty or
/// a specified timeout is reached.
#[derive(Debug)]
pub struct Drain<D> {
    /// The shard to be checked first.
    pub next_shard_no: ShardNo,
    pub current: Option<(ShardNo, Part<D>)>,
}

/// The first shard with dumps among those from `from` to `to`.
pub open spec fn first_filled<D>(registry: DumpRegistry<D>, from: int, to: int) -> Option<int>
    decreases to - from,
{
    if from >= to {
        None
    } else if registry.contents(from).len() > 0 {
        Some(from)
    } else {
        first_filled(registry, from + 1, to)
    }
}

/// The shard that is drained next: the first one with dumps in a circle.
pub open spec fn next_filled<D>(registry: DumpRegistry<D>, from: int) -> Option<int> {
    let len = registry.shards.len() as int;
    match first_filled(registry, from, len) {
        Some(shard_no) => Some(shard_no),
        None => first_filled(registry, 0, len),
    }
}

proof fn lemma_first_filled<D>(registry: DumpRegistry<D>, from: int, to: int)
    ensures
        first_filled(registry, from, to) matches Some(i) ==> from <= i < to && registry.contents(
            i,
        ).len() > 0,
        first_filled(registry, from, to) is None ==> forall|i: int|
            from <= i < to ==> #[trigger] registry.contents(i).len() == 0,
    decreases to - from,
{
    if from < to && registry.contents(from).len() == 0 {
        lemma_first_filled(registry, from + 1, to);
    }
}

impl<D> Drain<D> {
    pub fn new() -> (this: Drain<D>)
        ensures
            this.next_shard_no == 0,
            this.current is None,
    {
        Drain { next_shard_no: 0, current: None }
    }

    /// Dumps of the current part.
    pub open spec fn pending(&self) -> Seq<D> {
        match self.current {
            Some((_, part)) => part.items@,
            None => Seq::empty(),
        }
    }

    /// The shard that is being drained.
    pub open spec fn current_shard(&self) -> Option<int> {
        match self.current {
            Some((shard_no, _)) => Some(shard_no as int),
            None => None,
        }
    }

    pub open spec fn wf(&self, registry: DumpRegistry<D>) -> bool {
        &&& self.next_shard_no <= registry.shards.len()
        &&& self.current matches Some((shard_no, part)) ==> {
            &&& part.items@.len() > 0
            &&& shard_no < registry.shards.len()
            &&& registry.fund.used_count() > registry.shards.len()
        }
    }

    /// Goes to the next shard with dumps.
    pub fn next_shard(&mut self, registry: &mut DumpRegistry<D>)
        requires
            old(registry).wf(),
            old(registry).fund.part_count < usize::MAX,
            old(self).current is None,
            old(self).next_shard_no <= old(registry).shards.len(),
        ensures
            final(registry).wf(),
            final(self).wf(*final(registry)),
            final(registry).shards.len() == old(registry).shards.len(),
            match next_filled(*old(registry), old(self).next_shard_no as int) {
                Some(shard_no) => {
                    &&& final(self).current matches Some((no, part)) && no == shard_no && old(registry).contents(shard_no) == part.items@ + final(registry).contents(shard_no)
                    &&& final(self).next_shard_no == shard_no + 1
                    &&& old(registry).is_taken_from(*final(registry), shard_no)
                    &&& old(registry).is_part_taken(*final(registry), shard_no)
                },
                None => {
                    &&& final(self).current is None
                    &&& final(registry).is_same(old(registry))
                },
            },
    {
        // We should rerun the shard iterator if it ends, but only once.
        let mut is_rerunned = false;
        let ghost before = *registry;
        let ghost from = self.next_shard_no as int;
        let ghost len = registry.shards.len() as int;
        loop
            invariant
                registry.wf(),
                registry.is_same(&before),
                before.wf(),
                before.fund.part_count < usize::MAX,
                len == registry.shards.len() == before.shards.len(),
                self.current is None,
                self.next_shard_no <= len,
                0 <= from <= len,
                !is_rerunned ==> first_filled(before, from, len) == first_filled(
                    before,
                    self.next_shard_no as int,
                    len,
                ),
                is_rerunned ==> first_filled(before, from, len) is None && first_filled(
                    before,
                    0,
                    len,
                ) == first_filled(before, self.next_shard_no as int, len),
                before == *old(registry),
                from == old(self).next_shard_no,
            decreases (if is_rerunned { 0int } else { 1int }), len - self.next_shard_no,
        {
            if self.next_shard_no == registry.shards.len() {
                if is_rerunned {
                    return ;
                }
                is_rerunned = true;
                self.next_shard_no = 0;
                continue ;
            }

            let shard_no: usize = self.next_shard_no;
            self.next_shard_no = shard_no + 1;
            proof {
                before.lemma_same_contents(*registry);
            }
            if let Some(part) = registry.take_oldest_part(shard_no) {
                self.current = Some((shard_no, part));
                return ;
            }
        }
    }

    /// Returns the next dump. `in_time` is whether the timeout isn't reached, a
    /// part is drained to the end regardless of it.
    pub fn next(&mut self, registry: &mut DumpRegistry<D>, in_time: bool) -> (dump: Option<D>)
        requires
            old(registry).wf(),
            old(registry).fund.part_count < usize::MAX,
            old(self).wf(*old(registry)),
        ensures
            final(registry).wf(),
            final(self).wf(*final(registry)),
            final(registry).shards.len() == old(registry).shards.len(),
            if old(self).current is Some {
                &&& dump == Some(old(self).pending()[0])
                &&& final(self).pending() == old(self).pending().skip(1)
                &&& final(self).current is Some ==> final(self).current_shard() == old(self).current_shard()
                &&& final(self).next_shard_no == old(self).next_shard_no
                &&& old(registry).is_drained(*final(registry), old(self).pending().len() == 1)
                &&& forall|i: int|
                    0 <= i < old(registry).shards.len() ==> #[trigger] final(registry).contents(i)
                        == old(registry).contents(i)
            } else {
                match next_filled(*old(registry), old(self).next_shard_no as int) {
                    Some(shard_no) if in_time => {
                        &&& dump == Some(old(registry).contents(shard_no)[0])
                        &&& final(self).pending() + final(registry).contents(shard_no) == old(registry).contents(shard_no).skip(1)
                        &&& final(self).current is Some ==> final(self).current_shard() == Some(
                            shard_no,
                        )
                        &&& final(self).next_shard_no == shard_no + 1
                        &&& old(registry).is_taken_from(*final(registry), shard_no)
                        &&& exists|taken: DumpRegistry<D>| #[trigger]
                            old(registry).is_part_taken(taken, shard_no) && taken.is_drained(
                                *final(registry),
                                final(self).current is None,
                            )
                    },
                    _ => {
                        &&& dump is None
                        &&& final(self).current is None
                        &&& final(registry).is_same(old(registry))
                    },
                }
            },
    {
        let ghost before = *registry;
        let ghost was_some = self.current is Some;
        if self.current.is_none() && in_time {
            self.next_shard(registry);
        }
        let ghost moved = *registry;
        proof {
            if !was_some && self.current is Some {
                let shard = next_filled(before, old(self).next_shard_no as int)->0;
                assert(before.is_part_taken(moved, shard));
            }
        }

        let (shard_no, mut part) = match self.current.take() {
            Some(current) => current,
            None => return None,
        };
        let ghost taken = part.items@;
        let dump = part.pop();
        proof {
            if !was_some {
                let shard = next_filled(before, old(self).next_shard_no as int)->0;
                assert(before.contents(shard).skip(1) =~= taken.skip(1) + moved.contents(shard));
            }
        }

        if part.is_empty() {
            registry.fund.add_empty_part(part);
            proof {
                moved.lemma_same_queues(*registry);
                assert(registry.fund.empty_parts@.drop_last() =~= moved.fund.empty_parts@);
                if !was_some {
                    let shard = next_filled(before, old(self).next_shard_no as int)->0;
                    assert(self.pending() + registry.contents(shard) =~= before.contents(
                        shard,
                    ).skip(1));
                }
                assert(self.pending() =~= taken.skip(1));
            }
        } else {
            self.current = Some((shard_no, part));
        }
        dump
    }

    /// Returns the rest of the current part back as the newest filled part.
    pub fn finish(self, registry: &mut DumpRegistry<D>)
        requires
            old(registry).wf(),
            self.wf(*old(registry)),
        ensures
            final(registry).wf(),
            final(registry).class == old(registry).class,
            final(registry).shards == old(registry).shards,
            final(registry).fund.queues() == (match self.current_shard() {
                Some(i) => old(registry).fund.queues().update(
                    i,
                    old(registry).fund.queues()[i].push(self.pending()),
                ),
                None => old(registry).fund.queues(),
            }),
            old(registry).fund.same_but_filled(final(registry).fund),
            forall|i: int|
                #![trigger final(registry).contents(i)]
                0 <= i < old(registry).shards.len() ==> final(registry).contents(i) == (
                if self.current_shard() == Some(i) {
                    flat(old(registry).fund.queues()[i]) + self.pending() + old(registry).shards[i].items@
                } else {
                    old(registry).contents(i)
                }),
    {
        let ghost before = *registry;
        if let Some((shard_no, part)) = self.current {
            let ghost rest = part.items@;
            registry.fund.add_filled_part(shard_no, part);
            proof {
                let queues = before.fund.queues();
                lemma_flat_push(queues[shard_no as int], rest);
                assert forall|i: int, j: int|
                    0 <= i < registry.fund.queues().len() && 0 <= j
                        < registry.fund.queues()[i].len() implies #[trigger] registry.fund.queues()[i][j].len()
                    > 0 by {
                    if i == shard_no && j == queues[i].len() {
                    } else {
                        assert(registry.fund.queues()[i][j] == queues[i][j]);
                    }
                }
            }
        }
    }
}

impl<D> DumpRegistry<D> {
    /// Whether nothing but an exhausted part is returned.
    pub open spec fn is_drained(&self, next: DumpRegistry<D>, is_exhausted: bool) -> bool {
        &&& next.class == self.class
        &&& next.shards == self.shards
        &&& next.fund.queues() == self.fund.queues()
        &&& next.fund.max_part_count == self.fund.max_part_count
        &&& next.fund.part_count == self.fund.part_count
        &&& if is_exhausted {
            &&& next.fund.empty_parts.len() == self.fund.empty_parts.len() + 1
            &&& next.fund.empty_parts@.drop_last() == self.fund.empty_parts@
        } else {
            next.fund.empty_parts == self.fund.empty_parts
        }
    }

    /// Whether dumps are taken from the shard. Other shards can lose their
    /// oldest dumps if the limit of parts is reached.
    pub open spec fn is_taken_from(&self, next: DumpRegistry<D>, shard_no: int) -> bool {
        forall|i: int|
            0 <= i < self.shards.len() && i != shard_no ==> #[trigger] next.contents(i)
                == self.contents(i).skip(
                if self.fund.queues()[shard_no].len() > 0 {
                    0
                } else {
                    self.lost(i)
                },
            )
    }

    proof fn lemma_same_contents(self, other: DumpRegistry<D>)
        requires
            other.is_same(&self),
        ensures
            forall|i: int| #[trigger] self.contents(i) == other.contents(i),
            forall|i: int| #[trigger] self.lost(i) == other.lost(i),
    {
    }

    proof fn lemma_same_queues(self, other: DumpRegistry<D>)
        requires
            other.fund.queues() == self.fund.queues(),
            other.shards == self.shards,
        ensures
            forall|i: int| #[trigger] other.contents(i) == self.contents(i),
    {
    }
}

// === DumpStorage ===

/// Registries of all classes. Every class is here at most once.
#[derive(Debug)]
pub struct DumpStorage<D> {
    pub max_part_count: usize,
    pub registries: Vec<DumpRegistry<D>>,
}

impl<D> DumpStorage<D> {
    pub open spec fn wf(&self) -> bool {
        &&& forall|i: int| 0 <= i < self.registries.len() ==> (#[trigger] self.registries[i]).wf()
        &&& forall|i: int|
            0 <= i < self.registries.len() ==> (
            #[trigger] self.registries[i]).fund.max_part_count == self.max_part_count
        &&& forall|i: int, j: int|
            0 <= i < j < self.registries.len() ==> (#[trigger] self.registries[i]).class@ != (
            #[trigger] self.registries[j]).class@
    }

    pub fn new() -> (this: DumpStorage<D>)
        ensures
            this.wf(),
            this.registries.len() == 0,
            this.max_part_count == usize::MAX,
    {
        // At startup we doesn't limit dumping at all.
        // The dumper reconfigure the storage at startup.
        DumpStorage { max_part_count: usize::MAX, registries: Vec::new() }
    }

    /// Limits the number of dumps of every class.
    pub fn configure(&mut self, registry_capacity: usize)
        requires
            old(self).wf(),
        ensures
            final(self).wf(),
            final(self).max_part_count == registry_capacity as int / PART_CAPACITY as int,
            final(self).registries.len() == old(self).registries.len(),
            forall|i: int|
                #![trigger final(self).registries[i]]
                0 <= i < old(self).registries.len() ==> {
                    let before = old(self).registries[i];
                    let after = final(self).registries[i];
                    &&& after.class == before.class
                    &&& after.shards == before.shards
                    &&& after.fund.is_configured(before.fund, final(self).max_part_count)
                },
    {
        let max_part_count: usize = registry_capacity / PART_CAPACITY;
        let ghost before = self.registries@;
        self.max_part_count = max_part_count;
        let mut i: usize = 0;
        while i < self.registries.len()
            invariant
                i <= self.registries.len() == before.len(),
                self.max_part_count == max_part_count,
                before == old(self).registries@,
                old(self).wf(),
                forall|k: int|
                    #![trigger self.registries[k]]
                    0 <= k < i ==> {
                        &&& self.registries[k].wf()
                        &&& self.registries[k].class == before[k].class
                        &&& self.registries[k].shards == before[k].shards
                        &&& self.registries[k].fund.is_configured(before[k].fund, max_part_count)
                    },
                forall|k: int|
                    #![trigger self.registries[k]]
                    i <= k < before.len() ==> self.registries[k] == before[k],
            decreases self.registries.len() - i,
        {
            assert(old(self).registries[i as int].wf());
            assert(self.registries[i as int] == before[i as int]);
            self.registries[i].configure(max_part_count);
            i += 1;
        }
        proof {
            assert forall|a: int, b: int| 0 <= a < b < self.registries.len() implies (
            #[trigger] self.registries[a]).class@ != (#[trigger] self.registries[b]).class@ by {
                assert(old(self).registries[a].class@ != old(self).registries[b].class@);
            }
        }
    }

    /// Returns the position of the registry of the class, a new one is created
    /// if needed.
    pub fn registry(&mut self, class: &str) -> (pos: usize)
        requires
            old(self).wf(),
        ensures
            final(self).wf(),
            final(self).max_part_count == old(self).max_part_count,
            pos < final(self).registries.len(),
            final(self).registries[pos as int].class@ == class@,
            old(self).has_class(class@) ==> *final(self) == *old(self),
            !old(self).has_class(class@) ==> {
                &&& pos == old(self).registries.len()
                &&& final(self).registries.len() == old(self).registries.len() + 1
                &&& final(self).registries@.drop_last() == old(self).registries@
                &&& final(self).registries[pos as int].shards.len() == 0
                &&& final(self).registries[pos as int].fund.part_count == 0
                &&& final(self).registries[pos as int].fund.empty_parts.len() == 0
            },
    {
        let owned: String = class.to_owned();
        let mut i: usize = 0;
        while i < self.registries.len()
            invariant
                i <= self.registries.len(),
                *self == *old(self),
                self.wf(),
                owned@ == class@,
                forall|k: int| 0 <= k < i ==> (#[trigger] self.registries[k]).class@ != class@,
            decreases self.registries.len() - i,
        {
            if self.registries[i].class == owned {
                assert(self.registries[i as int].class@ == class@);
                return i;
            }
            i += 1;
        }
        self.registries.push(DumpRegistry::new(owned, self.max_part_count));
        proof {
            assert(self.registries@.drop_last() =~= old(self).registries@);
            assert forall|a: int, b: int| 0 <= a < b < self.registries.len() implies (
            #[trigger] self.registries[a]).class@ != (#[trigger] self.registries[b]).class@ by {
                assert(self.registries[a] == old(self).registries[a]);
                if b < old(self).registries.len() {
                    assert(self.registries[b] == old(self).registries[b]);
                }
            }
            assert forall|a: int| 0 <= a < self.registries.len() implies (
            #[trigger] self.registries[a]).wf() && self.registries[a].fund.max_part_count
                == self.max_part_count by {
                if a < old(self).registries.len() {
                    assert(self.registries[a] == old(self).registries[a]);
                }
            }
        }
        i
    }

    pub open spec fn has_class(&self, class: Seq<char>) -> bool {
        exists|i: int| 0 <= i < self.registries.len() && (#[trigger] self.registries[i]).class@ == class
    }

    /// All known classes.
    pub fn classes(&self) -> (classes: Vec<String>)
        ensures
            classes.len() == self.registries.len(),
            forall|i: int|
                0 <= i < classes.len() ==> (#[trigger] classes[i])@ == self.registries[i].class@,
    {
        let mut classes: Vec<String> = Vec::new();
        let mut i: usize = 0;
        while i < self.registries.len()
            invariant
                i <= self.registries.len(),
                classes.len() == i,
                forall|k: int|
                    0 <= k < i ==> (#[trigger] classes[k])@ == self.registries[k].class@,
            decreases self.registries.len() - i,
        {
            classes.push(self.registries[i].class.clone());
            i += 1;
        }
        classes
    }
}

// === Laws of the storage ===

/// If the limit isn't reached, nothing is lost while adding.
pub proof fn nothing_is_lost_under_limit<D>(registry: DumpRegistry<D>, shard_no: int)
    requires
        registry.fund.part_count < registry.fund.max_part_count,
    ensures
        registry.lost(shard_no) == 0,
        registry.contents(shard_no).skip(registry.lost(shard_no)) == registry.contents(shard_no),
{
    assert(registry.contents(shard_no).skip(0) =~= registry.contents(shard_no));
}

/// While there are dumps, draining in time always finds them.
pub proof fn draining_finds_dumps<D>(registry: DumpRegistry<D>, from: int, shard_no: int)
    requires
        0 <= from <= registry.shards.len(),
        0 <= shard_no < registry.shards.len(),
        registry.contents(shard_no).len() > 0,
    ensures
        next_filled(registry, from) matches Some(next) && 0 <= next < registry.shards.len()
            && registry.contents(next).len() > 0,
{
    let len = registry.shards.len() as int;
    lemma_first_filled(registry, from, len);
    lemma_first_filled(registry, 0, len);
}

/// Dumps leave a part in the order in which they are added, one by one.
pub proof fn part_is_queue<D>(
    a: &mut Part<D>,
    b: &mut Part<D>,
    dump: D,
    popped: Option<D>,
    fresh: Part<D>,
    empty: bool,
    full: bool,
)
    requires
        call_ensures(Part::<D>::new, (), fresh),
        call_ensures(Part::<D>::push, (a, dump), ()),
        *old(b) == *final(a),
        call_ensures(Part::<D>::pop, (b,), popped),
        call_ensures(Part::<D>::is_empty, (old(a),), empty),
        call_ensures(Part::<D>::is_full, (old(a),), full),
    ensures
        fresh.items@.len() == 0,
        empty <==> old(a).items@.len() == 0,
        full <==> old(a).items@.len() == 8191,
        empty ==> popped == Some(dump) && final(b).items@.len() == 0,
        !empty ==> popped == Some(old(a).items@[0]) && final(b).items@ == old(a).items@.skip(
            1,
        ).push(dump),
{
    assert(final(b).items@ =~= old(a).items@.push(dump).skip(1));
    if old(a).items@.len() > 0 {
        assert(old(a).items@.push(dump).skip(1) =~= old(a).items@.skip(1).push(dump));
    }
}

/// An exhausted part gives nothing, a cleared one is exhausted.
pub proof fn cleared_part_is_exhausted<D>(a: &mut Part<D>, b: &mut Part<D>, popped: Option<D>)
    requires
        call_ensures(Part::<D>::clear, (a,), ()),
        *old(b) == *final(a),
        call_ensures(Part::<D>::pop, (b,), popped),
    ensures
        popped is None,
{
}

/// Queues are filled parts, with the same dumps in the same order.
pub proof fn queues_hold_filled_parts<D>(fund: Fund<D>, i: int, j: int)
    requires
        0 <= i < fund.filled_parts@.len(),
        0 <= j < fund.filled_parts@[i]@.len(),
    ensures
        fund.queues().len() == fund.filled_parts@.len(),
        fund.queues()[i].len() == fund.filled_parts@[i]@.len(),
        fund.queues()[i][j] == fund.filled_parts@[i]@[j].items@,
{
}

/// Dumps of a queue are dumps of its parts one after another.
pub proof fn queue_is_flattened<D>(queue: Queue<D>, part: Seq<D>)
    ensures
        flat(Seq::<Seq<D>>::empty()) == Seq::<D>::empty(),
        flat(queue.push(part)) == flat(queue) + part,
{
    lemma_flat_push(queue, part);
}

/// Whether the shard has more filled parts than any other, the last one if there are
/// several such shards.
pub open spec fn is_longest<D>(queues: Seq<Queue<D>>, i: int) -> bool {
    &&& 0 <= i < queues.len()
    &&& queues[i].len() > 0
    &&& forall|j: int|
        0 <= j < queues.len() ==> (#[trigger] queues[j]).len() < queues[i].len() || j <= i
            && queues[j].len() == queues[i].len()
}

proof fn lemma_longest<D>(queues: Seq<Queue<D>>, i: int)
    ensures
        is_longest(queues, i) ==> has_filled(queues) && most_filled(queues) == i,
        has_filled(queues) ==> is_longest(queues, most_filled(queues)),
    decreases queues.len(),
{
    if queues.len() > 0 {
        lemma_most_filled(queues);
        let best = most_filled(queues);
        lemma_last_longest(queues);
        if is_longest(queues, i) {
            assert(queues[best].len() <= queues[i].len());
            assert(queues[i].len() <= queues[best].len());
            if i < best {
                assert(queues[best].len() < queues[i].len() || best <= i);
            }
            if best < i {
                assert(queues[i].len() < queues[best].len());
            }
        }
    }
}

proof fn lemma_last_longest<D>(queues: Seq<Queue<D>>)
    requires
        queues.len() > 0,
    ensures
        forall|j: int|
            most_filled(queues) < j < queues.len() ==> (#[trigger] queues[j]).len()
                < queues[most_filled(queues)].len(),
    decreases queues.len(),
{
    if queues.len() > 1 {
        let rest = queues.drop_last();
        lemma_most_filled(rest);
        lemma_last_longest(rest);
        let best = most_filled(rest);
        assert(queues[best] == rest[best]);
        assert forall|j: int| most_filled(queues) < j < queues.len() implies (
        #[trigger] queues[j]).len() < queues[most_filled(queues)].len() by {
            if j < rest.len() {
                assert(queues[j] == rest[j]);
            }
        }
    }
}

/// Where an empty part is taken from: an empty one is reused if there is any. Without
/// them, a new one is allocated until the limit is reached, and after that the shard
/// with the most filled parts loses its oldest one.
pub proof fn empty_parts_are_reused<D>(fund: &mut Fund<D>, part: Part<D>, i: int)
    requires
        old(fund).part_count < usize::MAX,
        call_ensures(Fund::<D>::get_empty_part, (fund,), part),
    ensures
        part.items@.len() == 0,
        final(fund).max_part_count == old(fund).max_part_count,
        old(fund).empty_parts@.len() > 0 ==> {
            &&& final(fund).empty_parts@ == old(fund).empty_parts@.drop_last()
            &&& final(fund).part_count == old(fund).part_count
            &&& final(fund).queues() == old(fund).queues()
        },
        old(fund).empty_parts@.len() == 0 ==> final(fund).empty_parts@.len() == 0,
        old(fund).empty_parts@.len() == 0 && old(fund).part_count < old(fund).max_part_count ==> {
            &&& final(fund).part_count == old(fund).part_count + 1
            &&& final(fund).queues() == old(fund).queues()
        },
        old(fund).empty_parts@.len() == 0 && old(fund).part_count >= old(fund).max_part_count
            && is_longest(old(fund).queues(), i) ==> {
            &&& final(fund).part_count == old(fund).part_count
            &&& final(fund).queues() == old(fund).queues().update(i, old(fund).queues()[i].skip(1))
        },
        old(fund).empty_parts@.len() == 0 && (forall|k: int|
            0 <= k < old(fund).queues().len() ==> (#[trigger] old(fund).queues()[k]).len() == 0)
            ==> {
            &&& final(fund).part_count == old(fund).part_count + 1
            &&& final(fund).queues() == old(fund).queues()
        },
{
    let queues = old(fund).queues();
    lemma_longest(queues, i);
    if queues.len() > 0 {
        lemma_most_filled(queues);
        assert(queues[most_filled(queues)].len() >= 0);
    }
}

/// Filled parts of a shard are taken in the order in which they are added.
pub proof fn filled_parts_are_queued<D>(
    fund: &mut Fund<D>,
    after: &mut Fund<D>,
    shard_no: ShardNo,
    part: Part<D>,
    taken: Option<Part<D>>,
    j: int,
)
    requires
        shard_no < old(fund).queues().len(),
        call_ensures(Fund::<D>::add_filled_part, (fund, shard_no, part), ()),
        *old(after) == *final(fund),
        call_ensures(Fund::<D>::get_filled_part, (after, shard_no), taken),
    ensures
        taken is Some,
        ({
            let queue = old(fund).queues()[shard_no as int];
            &&& queue.len() == 0 ==> taken->0.items@ == part.items@
            &&& queue.len() > 0 ==> taken->0.items@ == queue[0]
            &&& final(after).queues()[shard_no as int] == queue.push(part.items@).skip(1)
        }),
        0 <= j < old(fund).queues().len() && j != shard_no ==> final(after).queues()[j]
            == old(fund).queues()[j],
        final(after).queues().len() == old(fund).queues().len(),
        final(after).part_count == old(fund).part_count,
        final(after).empty_parts == old(fund).empty_parts,
{
}

/// Nothing is taken from a shard without filled parts.
pub proof fn nothing_filled_is_taken<D>(fund: &mut Fund<D>, shard_no: ShardNo, taken: Option<Part<D>>)
    requires
        shard_no < old(fund).queues().len(),
        old(fund).queues()[shard_no as int].len() == 0,
        call_ensures(Fund::<D>::get_filled_part, (fund, shard_no), taken),
    ensures
        taken is None && final(fund).queues() == old(fund).queues(),
{
}

/// An empty part that is given back is the one that is taken next.
pub proof fn returned_part_is_taken<D>(
    fund: &mut Fund<D>,
    after: &mut Fund<D>,
    part: Part<D>,
    taken: Part<D>,
)
    requires
        call_ensures(Fund::<D>::add_empty_part, (fund, part), ()),
        *old(after) == *final(fund),
        call_ensures(Fund::<D>::get_empty_part, (after,), taken),
    ensures
        final(fund).empty_parts@ == old(fund).empty_parts@.push(part),
        final(after).empty_parts@ == old(fund).empty_parts@,
        final(after).part_count == old(fund).part_count,
        final(after).queues() == old(fund).queues(),
{
    assert(old(fund).empty_parts@.push(part).drop_last() =~= old(fund).empty_parts@);
}

/// New shards have numbers in order and no filled parts.
pub proof fn shards_are_numbered<D>(
    fund: &mut Fund<D>,
    after: &mut Fund<D>,
    first: ShardNo,
    second: ShardNo,
    fresh: Fund<D>,
    limit: usize,
)
    requires
        call_ensures(Fund::<D>::new, (limit,), fresh),
        call_ensures(Fund::<D>::add_shard, (fund,), first),
        *old(after) == *final(fund),
        call_ensures(Fund::<D>::add_shard, (after,), second),
    ensures
        fresh.max_part_count == limit && fresh.part_count == 0 && fresh.queues().len() == 0
            && fresh.empty_parts@.len() == 0,
        first == old(fund).queues().len(),
        second == first + 1,
        final(fund).queues()[first as int].len() == 0,
        final(fund).queues().drop_last() == old(fund).queues(),
        final(fund).part_count == old(fund).part_count,
{
    assert(final(fund).queues().drop_last() =~= old(fund).queues());
}

proof fn lemma_drops_compose<D>(queues: Seq<Queue<D>>, a: int, b: int)
    requires
        a >= 0,
        b >= 0,
    ensures
        after_drops(after_drops(queues, a), b) == after_drops(queues, a + b),
    decreases b,
{
    if b > 0 {
        lemma_drops_compose(queues, a, b - 1);
    }
}

proof fn lemma_drops_are_suffixes<D>(queues: Seq<Queue<D>>, count: int, i: int)
    requires
        0 <= i < queues.len(),
    ensures
        after_drops(queues, count).len() == queues.len(),
        after_drops(queues, count)[i].len() <= queues[i].len(),
        after_drops(queues, count)[i] == queues[i].skip(
            queues[i].len() - after_drops(queues, count)[i].len(),
        ),
    decreases count,
{
    if count <= 0 {
        assert(queues[i].skip(0) =~= queues[i]);
    } else {
        lemma_drops_are_suffixes(queues, count - 1, i);
        let before = after_drops(queues, count - 1);
        if has_filled(before) {
            lemma_most_filled(before);
            let after = after_drops(queues, count);
            assert(after[i] =~= queues[i].skip(queues[i].len() - after[i].len()));
        }
    }
}

/// What a new limit costs: nothing if it isn't exceeded, otherwise empty parts go
/// first, and then the oldest filled parts, no more than it's needed.
pub proof fn limit_costs_no_more_than_needed<D>(fund: &mut Fund<D>, limit: usize, i: int)
    requires
        call_ensures(Fund::<D>::configure, (fund, limit), ()),
        0 <= i < old(fund).queues().len(),
    ensures
        final(fund).max_part_count == limit,
        old(fund).part_count <= limit ==> {
            &&& final(fund).part_count == old(fund).part_count
            &&& final(fund).empty_parts@ == old(fund).empty_parts@
            &&& final(fund).queues() == old(fund).queues()
        },
        old(fund).part_count > limit ==> final(fund).part_count >= limit,
        final(fund).part_count > limit ==> final(fund).empty_parts@.len() == 0
            && final(fund).queues()[i].len() == 0,
        final(fund).queues() != old(fund).queues() ==> final(fund).empty_parts@.len() == 0,
        old(fund).part_count - final(fund).part_count == old(fund).empty_parts@.len()
            - final(fund).empty_parts@.len() + filled_count(old(fund).queues()) - filled_count(
            final(fund).queues(),
        ),
        final(fund).queues()[i].len() <= old(fund).queues()[i].len(),
        final(fund).queues()[i] == old(fund).queues()[i].skip(
            old(fund).queues()[i].len() - final(fund).queues()[i].len(),
        ),
{
    let queues = old(fund).queues();
    lemma_drops_are_suffixes(queues, old(fund).extra_filled(limit), i);
    assert(old(fund).empty_parts@.take(old(fund).empty_parts@.len() as int)
        =~= old(fund).empty_parts@);
    let after = final(fund).queues();
    lemma_most_filled(after);
    assert(after[i].len() <= after[most_filled(after)].len());
}

/// How many parts there are: those of the last shard and those of others.
pub proof fn filled_parts_are_counted<D>(queues: Seq<Queue<D>>, queue: Queue<D>)
    ensures
        filled_count(Seq::<Queue<D>>::empty()) == 0,
        filled_count(queues.push(queue)) == filled_count(queues) + queue.len(),
{
    assert(queues.push(queue).drop_last() =~= queues);
}

/// Parts are dropped one by one: a limit that is lowered step by step costs the same
/// as if it's lowered at once, and every step is paid by the shard with the most filled
/// parts.
pub proof fn limit_is_lowered_step_by_step<D>(
    once: &mut Fund<D>,
    first: &mut Fund<D>,
    second: &mut Fund<D>,
    limit: usize,
    higher: usize,
    i: int,
)
    requires
        old(once).wf(),
        limit <= higher,
        *old(first) == *old(once),
        call_ensures(Fund::<D>::configure, (once, limit), ()),
        call_ensures(Fund::<D>::configure, (first, higher), ()),
        *old(second) == *final(first),
        call_ensures(Fund::<D>::configure, (second, limit), ()),
    ensures
        final(second).queues() == final(once).queues(),
        final(second).empty_parts@ == final(once).empty_parts@,
        final(second).part_count == final(once).part_count,
        old(once).part_count == limit + 1 && old(once).empty_parts@.len() == 0 && is_longest(
            old(once).queues(),
            i,
        ) ==> final(once).queues() == old(once).queues().update(i, old(once).queues()[i].skip(1))
            && final(once).part_count == limit,
{
    let queues = old(once).queues();
    let a = old(first).extra_filled(higher);
    let b = old(second).extra_filled(limit);
    lemma_drops_compose(queues, a, b);
    let empties = old(once).empty_parts@;
    let x = old(first).extra_empty(higher);
    let y = old(second).extra_empty(limit);
    assert(empties.take(empties.len() - x).take(empties.len() - x - y) =~= empties.take(
        empties.len() - x - y,
    ));
    assert(a + b == old(once).extra_filled(limit));
    assert(x + y == old(once).extra_empty(limit));
    lemma_longest(queues, i);
    if is_longest(queues, i) {
        lemma_count_filled(queues, i);
    }
    assert(after_drops(queues, 0) == queues);
    reveal_with_fuel(after_drops, 2);
}

proof fn lemma_count_filled<D>(queues: Seq<Queue<D>>, i: int)
    requires
        0 <= i < queues.len(),
    ensures
        filled_count(queues) >= queues[i].len(),
    decreases queues.len(),
{
    if i < queues.len() - 1 {
        lemma_count_filled(queues.drop_last(), i);
    }
}

proof fn lemma_added<D>(args: (&mut DumpRegistry<D>, ShardNo, D), i: int)
    requires
        call_ensures(DumpRegistry::<D>::add, args, ()),
        0 <= i < old(args.0).shards@.len(),
    ensures
        final(args.0).contents(i) == (if i == args.1 {
            old(args.0).contents(i).push(args.2)
        } else {
            old(args.0).contents(i)
        }).skip(
            if old(args.0).fills_part(args.1 as int) {
                old(args.0).lost(i)
            } else {
                0
            },
        ),
        final(args.0).shards@.len() == old(args.0).shards@.len(),
{
}

/// A dump becomes the newest one of its shard. Only if it fills a part of a full
/// registry, the shard with the most filled parts loses its oldest part.
pub proof fn added_dump_is_newest<D>(
    registry: &mut DumpRegistry<D>,
    shard_no: ShardNo,
    dump: D,
    i: int,
    k: int,
)
    requires
        old(registry).wf(),
        shard_no < old(registry).shards@.len(),
        call_ensures(DumpRegistry::<D>::add, (registry, shard_no, dump), ()),
        0 <= i < old(registry).shards@.len(),
    ensures
        ({
            let fund = old(registry).fund;
            let added = if i == shard_no {
                old(registry).contents(i).push(dump)
            } else {
                old(registry).contents(i)
            };
            let is_filled = old(registry).shards@[shard_no as int].items@.len() == 8190;
            &&& !is_filled || fund.empty_parts@.len() > 0 || fund.part_count < fund.max_part_count
                ==> final(registry).contents(i) == added
            &&& (forall|j: int|
                0 <= j < fund.queues().len() ==> (#[trigger] fund.queues()[j]).len() == 0)
                ==> final(registry).contents(i) == added
            &&& is_filled && fund.empty_parts@.len() == 0 && fund.part_count >= fund.max_part_count
                && is_longest(fund.queues(), k) ==> final(registry).contents(i) == (if i == k {
                added.skip(fund.queues()[k][0].len() as int)
            } else {
                added
            })
        }),
        final(registry).class == old(registry).class,
        final(registry).shards@.len() == old(registry).shards@.len(),
{
    lemma_added((registry, shard_no, dump), i);
    let fund = old(registry).fund;
    let added = if i == shard_no {
        old(registry).contents(i).push(dump)
    } else {
        old(registry).contents(i)
    };
    assert(added.skip(0) =~= added);
    lemma_longest(fund.queues(), k);
    if fund.queues().len() > 0 {
        lemma_most_filled(fund.queues());
        assert(fund.queues()[most_filled(fund.queues())].len() >= 0);
    }
}

/// What a shard holds: dumps of its filled parts and then dumps of its active part.
pub proof fn active_part_is_newest<D>(registry: DumpRegistry<D>, i: int)
    ensures
        registry.fund.queues()[i].len() == 0 ==> registry.contents(i)
            == registry.shards[i].items@,
        registry.shards[i].items@.len() == 0 ==> registry.contents(i) == flat(
            registry.fund.queues()[i],
        ),
        registry.contents(i).len() == flat(registry.fund.queues()[i]).len()
            + registry.shards[i].items@.len(),
{
    if registry.fund.queues()[i].len() == 0 {
        assert(registry.contents(i) =~= registry.shards[i].items@);
    }
    if registry.shards[i].items@.len() == 0 {
        assert(registry.contents(i) =~= flat(registry.fund.queues()[i]));
    }
}

/// A new registry has no shards, and a new shard is empty.
pub proof fn new_shards_are_empty<D>(
    class: String,
    limit: usize,
    fresh: DumpRegistry<D>,
    registry: &mut DumpRegistry<D>,
    shard_no: ShardNo,
    name: &str,
    i: int,
)
    requires
        call_ensures(DumpRegistry::<D>::new, (class, limit), fresh),
        call_ensures(DumpRegistry::<D>::class, (&fresh,), name),
        call_ensures(DumpRegistry::<D>::make_shard, (registry,), shard_no),
    ensures
        fresh.class == class && name@ == class@,
        fresh.shards@.len() == 0 && fresh.fund.max_part_count == limit,
        shard_no == old(registry).shards@.len(),
        final(registry).shards@.len() == shard_no + 1,
        final(registry).contents(shard_no as int).len() == 0,
        0 <= i < shard_no && (old(registry).fund.empty_parts@.len() > 0
            || old(registry).fund.part_count < old(registry).fund.max_part_count)
            ==> final(registry).contents(i) == old(registry).contents(i),
{
    if 0 <= i < shard_no {
        lemma_made((registry,), shard_no, i);
        assert(old(registry).contents(i).skip(0) =~= old(registry).contents(i));
    }
}

proof fn lemma_made<D>(args: (&mut DumpRegistry<D>,), shard_no: ShardNo, i: int)
    requires
        call_ensures(DumpRegistry::<D>::make_shard, args, shard_no),
        0 <= i < old(args.0).shards@.len(),
    ensures
        final(args.0).contents(i) == old(args.0).contents(i).skip(old(args.0).lost(i)),
{
}

/// The limit of a registry is the limit of its fund, active parts are never touched.
pub proof fn registry_limits_fund<D>(
    registry: &mut DumpRegistry<D>,
    fund: &mut Fund<D>,
    limit: usize,
)
    requires
        *old(fund) == old(registry).fund,
        call_ensures(DumpRegistry::<D>::configure, (registry, limit), ()),
        call_ensures(Fund::<D>::configure, (fund, limit), ()),
    ensures
        final(registry).shards == old(registry).shards,
        final(registry).class == old(registry).class,
        final(registry).fund.max_part_count == limit,
        final(registry).fund.queues() == final(fund).queues(),
        final(registry).fund.part_count == final(fund).part_count,
        final(registry).fund.empty_parts@ == final(fund).empty_parts@,
{
}

/// The oldest dumps of a shard are taken, and all that is taken and all that is left
/// is all that has been there.
pub proof fn oldest_part_is_taken<D>(
    registry: &mut DumpRegistry<D>,
    shard_no: ShardNo,
    part: Option<Part<D>>,
)
    requires
        old(registry).wf(),
        shard_no < old(registry).shards@.len(),
        call_ensures(DumpRegistry::<D>::take_oldest_part, (registry, shard_no), part),
    ensures
        part is None <==> old(registry).contents(shard_no as int).len() == 0,
        part is Some ==> {
            &&& part->0.items@.len() > 0
            &&& part->0.items@ + final(registry).contents(shard_no as int) == old(registry).contents(shard_no as int)
            &&& old(registry).fund.queues()[shard_no as int].len() > 0 ==> final(registry).fund.queues()[shard_no as int] == old(registry).fund.queues()[shard_no as int].skip(
                1,
            )
        },
        final(registry).shards@.len() == old(registry).shards@.len(),
{
    if part is Some && old(registry).fund.queues()[shard_no as int].len() > 0 {
        let queues = old(registry).fund.queues();
        assert(final(registry).fund.queues() == queues.update(
            shard_no as int,
            queues[shard_no as int].skip(1),
        ));
    }
}

/// Shards are drained in turn: the next one with dumps after the last one that has been
/// drained, and if there are no such ones, from the beginning.
pub proof fn shards_are_drained_in_turn<D>(
    drain: &mut Drain<D>,
    registry: &mut DumpRegistry<D>,
    k: int,
)
    requires
        old(drain).next_shard_no <= old(registry).shards@.len(),
        call_ensures(Drain::<D>::next_shard, (drain, registry), ()),
        0 <= k < old(registry).shards@.len(),
    ensures
        ({
            let from = old(drain).next_shard_no;
            let is_next = from <= k && forall|j: int|
                from <= j < k ==> (#[trigger] old(registry).contents(j)).len() == 0;
            let is_first = (forall|j: int|
                from <= j < old(registry).shards@.len() ==> (#[trigger] old(registry).contents(
                    j,
                )).len() == 0) && forall|j: int|
                0 <= j < k ==> (#[trigger] old(registry).contents(j)).len() == 0;
            old(registry).contents(k).len() > 0 && (is_next || is_first) ==> {
                &&& final(drain).current is Some && (final(drain).current->0).0 == k
                &&& (final(drain).current->0).1.items@ + final(registry).contents(k) == old(registry).contents(k)
                &&& final(drain).next_shard_no == k + 1
            }
        }),
        old(registry).contents(k).len() > 0 ==> final(drain).current is Some,
        (forall|j: int|
            0 <= j < old(registry).shards@.len() ==> (#[trigger] old(registry).contents(j)).len()
                == 0) ==> final(drain).current is None,
{
    let r = *old(registry);
    let from = old(drain).next_shard_no as int;
    let len = r.shards@.len() as int;
    lemma_first_filled(r, from, len);
    lemma_first_filled(r, 0, len);
    if r.contents(k).len() > 0 {
        draining_finds_dumps(r, from, k);
        if from <= k && forall|j: int| from <= j < k ==> (#[trigger] r.contents(j)).len() == 0 {
            lemma_first_is(r, from, len, k);
        }
        if forall|j: int| 0 <= j < k ==> (#[trigger] r.contents(j)).len() == 0 {
            lemma_first_is(r, 0, len, k);
        }
    }
}

proof fn lemma_first_is<D>(registry: DumpRegistry<D>, from: int, to: int, k: int)
    requires
        from <= k < to,
        registry.contents(k).len() > 0,
        forall|j: int| from <= j < k ==> (#[trigger] registry.contents(j)).len() == 0,
    ensures
        first_filled(registry, from, to) == Some(k),
    decreases k - from,
{
    if from < k {
        assert(registry.contents(from).len() == 0);
        lemma_first_is(registry, from + 1, to, k);
    }
}

/// A part that is being drained is drained to the end, in order, whatever the time is.
/// The next shard is started only in time.
pub proof fn dumps_are_drained_in_order<D>(
    drain: &mut Drain<D>,
    registry: &mut DumpRegistry<D>,
    in_time: bool,
    dump: Option<D>,
    fresh: Drain<D>,
    k: int,
)
    requires
        call_ensures(Drain::<D>::new, (), fresh),
        old(drain).wf(*old(registry)),
        call_ensures(Drain::<D>::next, (drain, registry, in_time), dump),
        0 <= k < old(registry).shards@.len(),
    ensures
        fresh.current is None && fresh.next_shard_no == 0,
        old(drain).current is Some ==> {
            let items = (old(drain).current->0).1.items@;
            &&& dump == Some(items[0])
            &&& items.len() > 1 ==> final(drain).current is Some && (final(drain).current->0).1.items@
                == items.skip(1) && (final(drain).current->0).0 == (old(drain).current->0).0
            &&& items.len() == 1 ==> final(drain).pending().len() == 0
            &&& final(drain).next_shard_no == old(drain).next_shard_no
            &&& final(registry).contents(k) == old(registry).contents(k)
        },
        old(drain).current is None && !in_time ==> dump is None,
        old(drain).current is None && (forall|j: int|
            0 <= j < old(registry).shards@.len() ==> (#[trigger] old(registry).contents(j)).len()
                == 0) ==> dump is None,
        old(drain).current is None && in_time && old(registry).contents(k).len() > 0
            && old(drain).next_shard_no <= k && (forall|j: int|
            old(drain).next_shard_no <= j < k ==> (#[trigger] old(registry).contents(j)).len()
                == 0) ==> {
            &&& dump == Some(old(registry).contents(k)[0])
            &&& final(drain).pending() + final(registry).contents(k) == old(registry).contents(
                k,
            ).skip(1)
            &&& final(drain).next_shard_no == k + 1
        },
{
    let r = *old(registry);
    let from = old(drain).next_shard_no as int;
    let len = r.shards@.len() as int;
    lemma_first_filled(r, from, len);
    lemma_first_filled(r, 0, len);
    if old(drain).current is Some {
        lemma_next((drain, registry, in_time), dump, k);
        let items = (old(drain).current->0).1.items@;
        assert(old(drain).pending() == items);
        assert(final(drain).pending() == items.skip(1));
        assert(items.skip(1).len() == items.len() - 1);
        assert(final(drain).current is None ==> final(drain).pending().len() == 0);
        if final(drain).current is Some {
            assert(final(drain).current_shard() == old(drain).current_shard());
            assert(old(drain).current_shard() == Some((old(drain).current->0).0 as int));
            assert(final(drain).current_shard() == Some((final(drain).current->0).0 as int));
        }
    }
    if r.contents(k).len() > 0 && from <= k && forall|j: int|
        from <= j < k ==> (#[trigger] r.contents(j)).len() == 0 {
        lemma_first_is(r, from, len, k);
    }
}

proof fn lemma_next<D>(
    args: (&mut Drain<D>, &mut DumpRegistry<D>, bool),
    dump: Option<D>,
    i: int,
)
    requires
        call_ensures(Drain::<D>::next, args, dump),
        old(args.0).current is Some,
        0 <= i < old(args.1).shards@.len(),
    ensures
        final(args.1).contents(i) == old(args.1).contents(i),
{
}

/// Dumps that aren't drained are given back to their shard, nothing is lost.
pub proof fn rest_of_part_is_given_back<D>(
    drain: Drain<D>,
    registry: &mut DumpRegistry<D>,
    i: int,
)
    requires
        call_ensures(Drain::<D>::finish, (drain, registry), ()),
        0 <= i < old(registry).shards@.len(),
    ensures
        drain.current is None || (drain.current->0).0 != i ==> final(registry).contents(i) == old(registry).contents(i),
        drain.current is Some && (drain.current->0).0 == i ==> final(registry).contents(i) == flat(
            old(registry).fund.queues()[i],
        ) + (drain.current->0).1.items@ + old(registry).shards@[i].items@,
        final(registry).fund.part_count == old(registry).fund.part_count,
        final(registry).fund.empty_parts@ == old(registry).fund.empty_parts@,
{
    lemma_finished((drain, registry), i);
}

proof fn lemma_finished<D>(args: (Drain<D>, &mut DumpRegistry<D>), i: int)
    requires
        call_ensures(Drain::<D>::finish, args, ()),
        0 <= i < old(args.1).shards@.len(),
    ensures
        final(args.1).contents(i) == (if args.0.current_shard() == Some(i) {
            flat(old(args.1).fund.queues()[i]) + args.0.pending() + old(args.1).shards[i].items@
        } else {
            old(args.1).contents(i)
        }),
{
}

/// Dumping isn't limited at first, then every class can hold as many dumps as fit into
/// whole parts.
pub proof fn capacity_is_in_whole_parts<D>(
    fresh: DumpStorage<D>,
    storage: &mut DumpStorage<D>,
    capacity: usize,
)
    requires
        call_ensures(DumpStorage::<D>::new, (), fresh),
        call_ensures(DumpStorage::<D>::configure, (storage, capacity), ()),
    ensures
        fresh.max_part_count == usize::MAX && fresh.registries@.len() == 0,
        final(storage).max_part_count * 8191 <= capacity,
        (final(storage).max_part_count + 1) * 8191 > capacity,
        final(storage).registries@.len() == old(storage).registries@.len(),
{
}

/// All registries are limited, each as if it's limited alone.
pub proof fn all_registries_are_limited<D>(
    storage: &mut DumpStorage<D>,
    registry: &mut DumpRegistry<D>,
    capacity: usize,
    i: int,
)
    requires
        call_ensures(DumpStorage::<D>::configure, (storage, capacity), ()),
        0 <= i < old(storage).registries@.len(),
        *old(registry) == old(storage).registries@[i],
        call_ensures(
            DumpRegistry::<D>::configure,
            (registry, final(storage).max_part_count),
            (),
        ),
    ensures
        ({
            let after = final(storage).registries@[i];
            &&& after.class == final(registry).class
            &&& after.shards == final(registry).shards
            &&& after.fund.max_part_count == final(registry).fund.max_part_count
            &&& after.fund.queues() == final(registry).fund.queues()
            &&& after.fund.part_count == final(registry).fund.part_count
            &&& after.fund.empty_parts@ == final(registry).fund.empty_parts@
        }),
{
    lemma_configured((storage, capacity), i);
}

proof fn lemma_configured<D>(args: (&mut DumpStorage<D>, usize), i: int)
    requires
        call_ensures(DumpStorage::<D>::configure, args, ()),
        0 <= i < old(args.0).registries@.len(),
    ensures
        ({
            let before = old(args.0).registries@[i];
            let after = final(args.0).registries@[i];
            &&& after.class == before.class
            &&& after.shards == before.shards
            &&& after.fund.is_configured(before.fund, final(args.0).max_part_count)
        }),
{
    let after = final(args.0).registries[i];
}

/// Every class has one registry, which is created on demand. Others stay.
pub proof fn class_has_one_registry<D>(
    storage: &mut DumpStorage<D>,
    after: &mut DumpStorage<D>,
    class: &str,
    other: &str,
    first: usize,
    second: usize,
    classes: Vec<String>,
    i: int,
)
    requires
        old(storage).wf(),
        call_ensures(DumpStorage::<D>::registry, (storage, class), first),
        *old(after) == *final(storage),
        call_ensures(DumpStorage::<D>::registry, (after, other), second),
        call_ensures(DumpStorage::<D>::classes, (final(after),), classes),
    ensures
        class@ == other@ <==> first == second,
        final(storage).registries@[first as int].class@ == class@,
        class@ == other@ ==> *final(after) == *final(storage),
        0 <= i < old(storage).registries@.len() ==> final(storage).registries@[i] == old(storage).registries@[i],
        0 <= i < old(storage).registries@.len() && old(storage).registries@[i].class@ == class@
            ==> first == i && *final(storage) == *old(storage),
        classes@.len() == final(after).registries@.len(),
        classes@[first as int]@ == class@ && classes@[second as int]@ == other@,
{
    if !old(storage).has_class(class@) {
        if 0 <= i < old(storage).registries@.len() {
            assert(final(storage).registries@.drop_last()[i] == old(storage).registries@[i]);
            assert(old(storage).registries[i].class@ != class@);
        }
    } else if 0 <= i < old(storage).registries@.len() && old(storage).registries@[i].class@
        == class@ {
        if first < i {
            assert(old(storage).registries[first as int].class@ != old(storage).registries[i].class@);
        }
        if i < first {
            assert(old(storage).registries[i].class@ != old(storage).registries[first as int].class@);
        }
    }
    assert(final(storage).registries[first as int].class@ == class@);
    let s = *final(storage);
    assert(s.has_class(class@));
    if class@ == other@ {
        if first < second {
            assert(s.registries[first as int].class@ != s.registries[second as int].class@);
        }
        if second < first {
            assert(s.registries[second as int].class@ != s.registries[first as int].class@);
        }
    }
    if !s.has_class(other@) {
        assert(final(after).registries@.drop_last()[first as int] == s.registries@[first as int]);
    }
    assert(classes[first as int]@ == final(after).registries[first as int].class@);
    assert(classes[second as int]@ == final(after).registries[second as int].class@);
}

/// Nothing is allocated for shards that don't exist yet.
pub proof fn new_fund_has_no_parts<D>(
    limit: usize,
    class: String,
    fund: Fund<D>,
    registry: DumpRegistry<D>,
)
    requires
        call_ensures(Fund::<D>::new, (limit,), fund),
        call_ensures(DumpRegistry::<D>::new, (class, limit), registry),
    ensures
        fund.max_part_count == limit && fund.part_count == 0 && fund.empty_parts.len() == 0,
        fund.queues().len() == 0,
        registry.class == class && registry.shards.len() == 0,
        registry.fund.max_part_count == limit && registry.fund.part_count == 0
            && registry.fund.empty_parts.len() == 0,
{
}

/// The rest of a part becomes the newest filled part of its shard, others stay.
pub proof fn rest_of_part_is_filled<D>(
    drain: Drain<D>,
    registry: &mut DumpRegistry<D>,
    shard_no: ShardNo,
    part: Part<D>,
    i: int,
)
    requires
        old(registry).wf(),
        drain.wf(*old(registry)),
        drain.current == Some((shard_no, part)),
        0 <= i < old(registry).fund.queues().len(),
        call_ensures(Drain::<D>::finish, (drain, registry), ()),
    ensures
        final(registry).fund.queues().len() == old(registry).fund.queues().len(),
        i == shard_no ==> final(registry).fund.queues()[i] == old(registry).fund.queues()[i].push(
            part.items@,
        ),
        i != shard_no ==> final(registry).fund.queues()[i] == old(registry).fund.queues()[i],
{
}

} // verus!
