use vstd::prelude::*;

use super::trace_id::{Bottom, TraceId, TraceIdLayout, TruncatedTime};
use crate::addr::NodeNo;

verus! {

/// The number of chunks.
pub const CHUNK_RANGE: u32 = 0x1000;

/// The last value of a counter inside a chunk, the first one is 1.
pub const LAST_COUNTER: u32 = 0x3ff;

/// For how long a read system time is used.
pub const NANOS_PER_SEC: u64 = 1_000_000_000;

// === ChunkRegistry ===

/// Hands out chunks to generators.
#[derive(Debug, Clone, Copy, Default)]
pub struct ChunkRegistry {
    pub next: u64,
}

impl ChunkRegistry {
    /// Takes the next chunk, chunks are reused after the last one.
    pub fn next_chunk(&mut self) -> (chunk_no: u32)
        ensures
            chunk_no == old(self).next % (CHUNK_RANGE as u64),
            final(self).next == (if old(self).next == u64::MAX {
                0
            } else {
                (old(self).next + 1) as u64
            }),
    {
        let chunk_no: u64 = self.next;
        self.next = chunk_no.wrapping_add(1);
        assert((chunk_no as u32) & 0xfff == chunk_no % 0x1000) by (bit_vector);
        chunk_no as u32 & 0xfff
    }
}

// === CachedTruncatedTime ===

/// The system time, read at most once per second.
#[derive(Debug, Clone, Copy)]
pub struct CachedTruncatedTime {
    pub cached: TruncatedTime,
    /// When it was read, in nanoseconds of the monotonic clock.
    pub when: u64,
}

impl CachedTruncatedTime {
    /// Reads the clocks.
    pub fn now(mono_nanos: u64, unix_time_secs: u64) -> (this: CachedTruncatedTime)
        ensures
            this.cached.secs == unix_time_secs % 0x200_0000,
            this.when == mono_nanos,
    {
        CachedTruncatedTime { cached: TruncatedTime::now(unix_time_secs), when: mono_nanos }
    }

    /// The state after the clocks show `mono_nanos` and `unix_time_secs`.
    pub open spec fn updated(self, mono_nanos: u64, unix_time_secs: u64) -> CachedTruncatedTime {
        if mono_nanos - self.when >= NANOS_PER_SEC {
            CachedTruncatedTime {
                cached: TruncatedTime { secs: (unix_time_secs % 0x200_0000) as u32 },
                when: mono_nanos,
            }
        } else {
            self
        }
    }

    /// Returns the time, reads the system one again only if a second or more
    /// has passed.
    pub fn get(&mut self, mono_nanos: u64, unix_time_secs: u64) -> (time: TruncatedTime)
        ensures
            *final(self) == old(self).updated(mono_nanos, unix_time_secs),
            time == final(self).cached,
    {
        if mono_nanos.saturating_sub(self.when) >= NANOS_PER_SEC {
            self.cached = TruncatedTime::now(unix_time_secs);
            self.when = mono_nanos;
        }

        self.cached
    }
}

// === Place ===

/// A place of an id, the same for both generators.
pub struct Place {
    pub chunk_no: u32,
    pub counter: u32,
}

impl Place {
    pub open spec fn wf(self) -> bool {
        &&& self.chunk_no < CHUNK_RANGE
        &&& self.counter <= LAST_COUNTER
    }

    /// The next place: inside the same chunk, otherwise at the beginning of a new
    /// one.
    pub open spec fn advances(
        self,
        chunk_registry: ChunkRegistry,
        next: Place,
        next_registry: ChunkRegistry,
    ) -> bool {
        if self.counter < LAST_COUNTER {
            &&& next.counter == self.counter + 1
            &&& next.chunk_no == self.chunk_no
            &&& next_registry == chunk_registry
        } else {
            &&& next.counter == 1
            &&& next.chunk_no == chunk_registry.next % (CHUNK_RANGE as u64)
            &&& next_registry.next == (if chunk_registry.next == u64::MAX {
                0
            } else {
                (chunk_registry.next + 1) as u64
            })
        }
    }
}

// === Generator ===

/// Generates trace ids of one thread.
#[derive(Debug, Clone, Copy)]
pub struct Generator {
    pub node_no: Option<NodeNo>,
    pub timestamp: CachedTruncatedTime,
    pub chunk_no: u32,
    pub counter: u32,
}

impl Generator {
    pub open spec fn wf(self) -> bool {
        &&& self.timestamp.cached.wf()
        &&& self.chunk_no < CHUNK_RANGE
        &&& self.counter <= LAST_COUNTER
    }

    /// Creates a generator that takes a chunk on the first call.
    pub fn new(mono_nanos: u64, unix_time_secs: u64) -> (this: Generator)
        ensures
            this.wf(),
            this.node_no is None,
            this.timestamp.cached.secs == unix_time_secs % 0x200_0000,
            this.timestamp.when == mono_nanos,
            this.counter == LAST_COUNTER,
            this.chunk_no == 0,
    {
        Generator {
            node_no: None,
            timestamp: CachedTruncatedTime::now(mono_nanos, unix_time_secs),
            chunk_no: 0,
            counter: LAST_COUNTER,
        }
    }

    /// The layout of an id generated right before the state became `self`.
    pub open spec fn last_layout(self) -> TraceIdLayout {
        TraceIdLayout {
            timestamp: self.timestamp.cached,
            node_no: self.node_no,
            bottom: Bottom { value: (self.chunk_no * 0x400 + self.counter) as u32 },
        }
    }

    /// Where the last id is.
    pub open spec fn place(self) -> Place {
        Place { chunk_no: self.chunk_no, counter: self.counter }
    }

    /// Whether `next` is at the next place.
    pub open spec fn advances(
        self,
        chunk_registry: ChunkRegistry,
        next: Generator,
        next_registry: ChunkRegistry,
    ) -> bool {
        self.place().advances(chunk_registry, next.place(), next_registry)
    }

    /// Generates a new trace id according to the next layout:
    /// * 1  bit  0 (zero)
    /// * 25 bits timestamp in secs
    /// * 16 bits node_no
    /// * 12 bits (chunk_no & 0xfff)
    /// * 10 bits counter
    ///
    /// The node number is remembered as soon as it is known, all ids generated
    /// before that have zero in the `node_no` part.
    pub fn generate(
        &mut self,
        chunk_registry: &mut ChunkRegistry,
        node_no: Option<NodeNo>,
        mono_nanos: u64,
        unix_time_secs: u64,
    ) -> (trace_id: TraceId)
        requires
            old(self).wf(),
        ensures
            final(self).wf(),
            trace_id.raw() == final(self).last_layout().compose(),
            final(self).last_layout().wf(),
            final(self).timestamp == old(self).timestamp.updated(mono_nanos, unix_time_secs),
            final(self).node_no == (if old(self).node_no is Some {
                old(self).node_no
            } else {
                node_no
            }),
            old(self).advances(*old(chunk_registry), *final(self), *final(chunk_registry)),
    {
        // Check whether the chunk is exhausted.
        if self.counter == LAST_COUNTER {
            self.chunk_no = chunk_registry.next_chunk();
            self.counter = 0;
        }

        self.counter += 1;
        let chunk_no: u32 = self.chunk_no;
        let counter: u32 = self.counter;
        assert(chunk_no << 10 | counter == chunk_no * 0x400 + counter) by (bit_vector)
            requires
                chunk_no < 0x1000,
                counter <= 0x3ff,
        ;
        let bottom: u32 = chunk_no << 10 | counter;

        if self.node_no.is_none() {
            self.node_no = node_no;
        }

        TraceId::from_layout(
            TraceIdLayout {
                timestamp: self.timestamp.get(mono_nanos, unix_time_secs),
                node_no: self.node_no,
                bottom: Bottom::new(bottom),
            },
        )
    }
}

impl TraceId {
    /// Generates a new trace id with the generator of the current thread.
    ///
    /// See [`Generator::generate`].
    pub fn generate(
        generator: &mut Generator,
        chunk_registry: &mut ChunkRegistry,
        node_no: Option<NodeNo>,
        mono_nanos: u64,
        unix_time_secs: u64,
    ) -> (trace_id: TraceId)
        requires
            old(generator).wf(),
        ensures
            final(generator).wf(),
            trace_id.raw() == final(generator).last_layout().compose(),
            final(generator).last_layout().wf(),
            final(generator).timestamp == old(generator).timestamp.updated(
                mono_nanos,
                unix_time_secs,
            ),
            final(generator).node_no == (if old(generator).node_no is Some {
                old(generator).node_no
            } else {
                node_no
            }),
            old(generator).advances(
                *old(chunk_registry),
                *final(generator),
                *final(chunk_registry),
            ),
    {
        generator.generate(chunk_registry, node_no, mono_nanos, unix_time_secs)
    }
}

// === Laws ===

/// Ids with different chunks or counters are different, whatever the time and
/// the node number are.
pub proof fn ids_of_different_bottoms_differ(a: Generator, b: Generator)
    requires
        a.wf(),
        b.wf(),
        a.chunk_no != b.chunk_no || a.counter != b.counter,
    ensures
        a.last_layout().compose() != b.last_layout().compose(),
{
    let x = a.last_layout();
    let y = b.last_layout();
    let p = x.timestamp.secs * 0x1_0000 + crate::addr::node_bits(x.node_no);
    let q = y.timestamp.secs * 0x1_0000 + crate::addr::node_bits(y.node_no);
    assert(x.compose() == p * 0x40_0000 + x.bottom.value);
    assert(y.compose() == q * 0x40_0000 + y.bottom.value);
    lemma_low_parts(
        a.chunk_no as int,
        b.chunk_no as int,
        a.counter as int,
        b.counter as int,
        0x400,
    );
    lemma_low_parts(p, q, x.bottom.value as int, y.bottom.value as int, 0x40_0000);
}

proof fn lemma_low_parts(p: int, q: int, x: int, y: int, range: int)
    by (nonlinear_arith)
    requires
        0 <= x < range,
        0 <= y < range,
        p != q || x != y,
    ensures
        p * range + x != q * range + y,
{
}

proof fn lemma_mod_differ(first: int, a: int, b: int)
    requires
        0 <= a < 0x1000,
        0 <= b < 0x1000,
        a != b,
    ensures
        (first + a) % 0x1000 != (first + b) % 0x1000,
{
}

/// How places are changed by one call and the thread that has made it.
pub struct Generation {
    pub thread: int,
    pub before: Place,
    pub registry: ChunkRegistry,
    pub after: Place,
    pub next_registry: ChunkRegistry,
}

impl Generation {
    pub open spec fn wf(self) -> bool {
        &&& self.before.wf()
        &&& self.after.wf()
        &&& self.before.advances(self.registry, self.after, self.next_registry)
    }

    /// Whether a chunk has been taken.
    pub open spec fn takes_chunk(self) -> bool {
        self.before.counter == LAST_COUNTER
    }
}

/// How many calls have been made up to the latest one of the thread, inclusive.
pub open spec fn latest(history: Seq<Generation>, thread: int) -> int
    decreases history.len(),
{
    if history.len() == 0 || history.last().thread == thread {
        history.len() as int
    } else {
        latest(history.drop_last(), thread)
    }
}

/// Calls of all threads, every thread has its own generator, and all of them take
/// chunks from the same registry.
pub open spec fn is_history(history: Seq<Generation>) -> bool
    decreases history.len(),
{
    history.len() > 0 ==> {
        let rest = history.drop_last();
        let last = history.last();
        let prev = latest(rest, last.thread);
        &&& is_history(rest)
        &&& last.wf()
        &&& if prev > 0 {
            last.before == rest[prev - 1].after
        } else {
            last.before.counter == LAST_COUNTER
        }
        &&& rest.len() > 0 ==> last.registry == rest.last().next_registry
    }
}

/// How many chunks have been taken.
pub open spec fn taken_chunks(history: Seq<Generation>) -> int
    decreases history.len(),
{
    if history.len() == 0 {
        0
    } else {
        taken_chunks(history.drop_last()) + if history.last().takes_chunk() {
            1int
        } else {
            0int
        }
    }
}

/// How many chunks had been taken before the chunk that the last call uses.
spec fn ordinal(history: Seq<Generation>) -> int
    decreases history.len(),
{
    if history.len() == 0 {
        0
    } else {
        let rest = history.drop_last();
        let prev = latest(rest, history.last().thread);
        if history.last().takes_chunk() || prev <= 0 || prev > rest.len() {
            taken_chunks(rest)
        } else {
            ordinal(rest.take(prev))
        }
    }
}

proof fn lemma_latest(history: Seq<Generation>, thread: int)
    ensures
        0 <= latest(history, thread) <= history.len(),
        latest(history, thread) > 0 ==> history[latest(history, thread) - 1].thread == thread,
        forall|i: int|
            latest(history, thread) <= i < history.len() ==> (#[trigger] history[i]).thread
                != thread,
    decreases history.len(),
{
    if history.len() > 0 && history.last().thread != thread {
        let rest = history.drop_last();
        lemma_latest(rest, thread);
        assert forall|i: int| latest(history, thread) <= i < history.len() implies (
        #[trigger] history[i]).thread != thread by {
            if i < rest.len() {
                assert(rest[i] == history[i]);
            }
        }
    }
}

proof fn lemma_prefix(history: Seq<Generation>, len: int)
    requires
        is_history(history),
        0 <= len <= history.len(),
    ensures
        is_history(history.take(len)),
        0 <= taken_chunks(history.take(len)) <= taken_chunks(history),
    decreases history.len(),
{
    if len == history.len() {
        assert(history.take(len) =~= history);
        if len > 0 {
            lemma_prefix(history.drop_last(), len - 1);
        }
    } else {
        lemma_prefix(history.drop_last(), len);
        assert(history.drop_last().take(len) =~= history.take(len));
    }
}

proof fn lemma_place(history: Seq<Generation>)
    requires
        is_history(history),
        history.len() > 0,
    ensures
        0 <= ordinal(history) < taken_chunks(history),
        history.last().after.chunk_no == (history[0].registry.next + ordinal(history)) % 0x1000,
        history.last().next_registry.next == (history[0].registry.next + taken_chunks(history))
            % 0x1_0000_0000_0000_0000,
    decreases history.len(),
{
    let rest = history.drop_last();
    let last = history.last();
    let prev = latest(rest, last.thread);
    let first = history[0].registry.next;
    lemma_latest(rest, last.thread);
    if rest.len() > 0 {
        lemma_place(rest);
        assert(rest[0] == history[0]);
    }
    if last.takes_chunk() {
        lemma_prefix(rest, rest.len() as int);
        assert(last.registry.next == (first + taken_chunks(rest)) % 0x1_0000_0000_0000_0000);
    } else {
        let before = rest.take(prev);
        lemma_prefix(rest, prev);
        lemma_place(before);
        assert(before[0] == history[0]);
        assert(before.last() == rest[prev - 1]);
    }
}

proof fn lemma_same_chunk(history: Seq<Generation>, i: int, j: int)
    requires
        is_history(history),
        0 <= i < j < history.len(),
        ordinal(history.take(i + 1)) == ordinal(history.take(j + 1)),
    ensures
        history[i].thread == history[j].thread,
        history[i].after.counter < history[j].after.counter,
    decreases j,
{
    let upto = history.take(j + 1);
    let rest = upto.drop_last();
    let last = upto.last();
    let prev = latest(rest, last.thread);
    lemma_prefix(history, j + 1);
    lemma_prefix(history, i + 1);
    lemma_latest(rest, last.thread);
    assert(rest =~= history.take(j));
    assert(last == history[j]);
    lemma_place(history.take(i + 1));
    lemma_prefix(rest, i + 1);
    assert(rest.take(i + 1) =~= history.take(i + 1));
    if !last.takes_chunk() {
        assert(prev > 0);
        assert(rest.take(prev) =~= history.take(prev));
        assert(rest[prev - 1] == history[prev - 1]);
        if i < prev - 1 {
            lemma_same_chunk(history, i, prev - 1);
        } else if i > prev - 1 {
            lemma_same_chunk(history, prev - 1, i);
            assert(rest[i] == history[i]);
        }
    }
}

/// No place is used twice, on whatever threads, until chunks are reused.
pub proof fn places_never_repeat(history: Seq<Generation>, i: int, j: int)
    requires
        is_history(history),
        taken_chunks(history) <= CHUNK_RANGE,
        0 <= i < j < history.len(),
    ensures
        history[i].after != history[j].after,
{
    let a = history.take(i + 1);
    let b = history.take(j + 1);
    lemma_prefix(history, i + 1);
    lemma_prefix(history, j + 1);
    lemma_place(a);
    lemma_place(b);
    assert(a.last() == history[i] && b.last() == history[j]);
    assert(a[0] == history[0] && b[0] == history[0]);
    if ordinal(a) == ordinal(b) {
        lemma_same_chunk(history, i, j);
    } else {
        lemma_mod_differ(history[0].registry.next as int, ordinal(a), ordinal(b));
    }
}

/// No trace id is generated twice, on whatever threads, until chunks are reused.
/// `a` and `b` are states of generators right after the calls.
pub proof fn ids_never_repeat(
    history: Seq<Generation>,
    i: int,
    j: int,
    a: Generator,
    b: Generator,
)
    requires
        is_history(history),
        taken_chunks(history) <= CHUNK_RANGE,
        0 <= i < j < history.len(),
        a.wf(),
        b.wf(),
        a.place() == history[i].after,
        b.place() == history[j].after,
    ensures
        a.last_layout().compose() != b.last_layout().compose(),
{
    places_never_repeat(history, i, j);
    ids_of_different_bottoms_differ(a, b);
}

/// A generated id is a 63-bit number, its last 10 bits are a counter that is
/// never zero.
pub proof fn generated_ids_are_63_bit(
    before: Generator,
    registry: ChunkRegistry,
    after: Generator,
    next_registry: ChunkRegistry,
)
    requires
        before.wf(),
        after.wf(),
        before.advances(registry, after, next_registry),
    ensures
        0 < after.last_layout().compose() < 0x8000_0000_0000_0000,
        after.last_layout().compose() % 0x400 == after.counter,
        1 <= after.counter <= LAST_COUNTER,
{
    let layout = after.last_layout();
    let top = layout.timestamp.secs * 0x1_0000 + crate::addr::node_bits(layout.node_no);
    assert(layout.compose() == top * 0x40_0000 + layout.bottom.value);
}

/// Chunks are handed out one after another, and after the last one from the beginning.
pub proof fn chunks_are_handed_out_in_order(
    a: &mut ChunkRegistry,
    b: &mut ChunkRegistry,
    first: u32,
    second: u32,
)
    requires
        call_ensures(ChunkRegistry::next_chunk, (a,), first),
        *old(b) == *final(a),
        call_ensures(ChunkRegistry::next_chunk, (b,), second),
    ensures
        first < 4096 && second < 4096,
        first < 4095 ==> second == first + 1,
        first == 4095 ==> second == 0,
        old(a).next == 0 ==> first == 0,
{
    let x = old(a).next as int;
    let y = old(b).next as int;
    assert(CHUNK_RANGE as u64 == 0x1000);
    assert(first == x % 0x1000);
    assert(second == y % 0x1000);
}

/// The system time is read again only if a second has passed since it was read.
pub proof fn time_is_cached_for_second(
    read_at: u64,
    read: u64,
    cache: &mut CachedTruncatedTime,
    mono_nanos: u64,
    unix_time_secs: u64,
    time: TruncatedTime,
)
    requires
        call_ensures(CachedTruncatedTime::now, (read_at, read), *old(cache)),
        call_ensures(CachedTruncatedTime::get, (cache, mono_nanos, unix_time_secs), time),
    ensures
        mono_nanos < read_at + 1_000_000_000 ==> time.secs == read % 0x200_0000
            && final(cache).when == read_at,
        mono_nanos >= read_at + 1_000_000_000 ==> time.secs == unix_time_secs % 0x200_0000
            && final(cache).when == mono_nanos,
{
}

/// What a generated id consists of: 25 bits of the time, 16 bits of the node number, 12
/// bits of the chunk number and 10 bits of the counter. The counter goes from 1 to 1023,
/// and then a new chunk is taken. The first node number that is known is used.
pub proof fn ids_follow_layout(
    generator: &mut Generator,
    registry: &mut ChunkRegistry,
    cache: &mut CachedTruncatedTime,
    node_no: Option<NodeNo>,
    mono_nanos: u64,
    unix_time_secs: u64,
    time: TruncatedTime,
    trace_id: TraceId,
)
    requires
        old(generator).wf(),
        *old(cache) == old(generator).timestamp,
        call_ensures(CachedTruncatedTime::get, (cache, mono_nanos, unix_time_secs), time),
        call_ensures(
            Generator::generate,
            (generator, registry, node_no, mono_nanos, unix_time_secs),
            trace_id,
        ) || call_ensures(
            TraceId::generate,
            (generator, registry, node_no, mono_nanos, unix_time_secs),
            trace_id,
        ),
    ensures
        ({
            let raw = trace_id.raw() as int;
            let node = if old(generator).node_no is Some {
                old(generator).node_no
            } else {
                node_no
            };
            &&& raw / 0x40_0000_0000 == time.secs
            &&& raw / 0x40_0000 % 65536 == crate::addr::node_bits(node)
            &&& final(generator).node_no == node
            &&& final(generator).timestamp == *final(cache)
            &&& raw / 1024 % 4096 == final(generator).chunk_no
            &&& raw % 1024 == final(generator).counter
            &&& old(generator).counter < 1023 ==> {
                &&& final(generator).counter == old(generator).counter + 1
                &&& final(generator).chunk_no == old(generator).chunk_no
                &&& *final(registry) == *old(registry)
            }
            &&& old(generator).counter == 1023 ==> {
                &&& final(generator).counter == 1
                &&& final(generator).chunk_no == old(registry).next % 4096
                &&& old(registry).next < u64::MAX ==> final(registry).next == old(registry).next
                    + 1
            }
        }),
{
    let raw = trace_id.raw() as int;
    let g = *final(generator);
    let t = g.timestamp.cached.secs as int;
    let n = crate::addr::node_bits(g.node_no) as int;
    let chunk = g.chunk_no as int;
    let counter = g.counter as int;
    assert(raw == t * 0x40_0000_0000 + n * 0x40_0000 + chunk * 0x400 + counter);
    assert(raw == (t * 0x1_0000 + n) * 0x40_0000 + (chunk * 0x400 + counter));
    assert(raw / 0x40_0000 == t * 0x1_0000 + n);
    assert(raw == ((t * 0x1_0000 + n) * 0x1000 + chunk) * 0x400 + counter);
    assert(raw / 0x400 == (t * 0x1_0000 + n) * 0x1000 + chunk);
}

/// A new generator has no chunk of its own, so it takes one on the first call.
pub proof fn new_generator_takes_chunk(
    read_at: u64,
    read: u64,
    generator: &mut Generator,
    registry: &mut ChunkRegistry,
    node_no: Option<NodeNo>,
    mono_nanos: u64,
    unix_time_secs: u64,
    trace_id: TraceId,
)
    requires
        call_ensures(Generator::new, (read_at, read), *old(generator)),
        call_ensures(
            Generator::generate,
            (generator, registry, node_no, mono_nanos, unix_time_secs),
            trace_id,
        ),
    ensures
        final(generator).chunk_no == old(registry).next % 4096,
        final(generator).counter == 1,
        final(generator).node_no == node_no,
        mono_nanos < read_at + 1_000_000_000 ==> final(generator).timestamp.cached.secs == read
            % 0x200_0000,
{
}

/// A new generator belongs to no node, and its chunk is exhausted.
pub proof fn new_generator_has_no_chunk(mono_nanos: u64, unix_time_secs: u64, generator: Generator)
    requires
        call_ensures(Generator::new, (mono_nanos, unix_time_secs), generator),
    ensures
        generator.node_no is None && generator.chunk_no == 0 && generator.counter == 0x3ff,
{
}

} // verus!
