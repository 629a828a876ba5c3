//! The generator that needs nothing but the previous id.

use vstd::prelude::*;

use crate::node::NodeCell;
use crate::tracing::generator::{
    is_history, places_never_repeat, taken_chunks, ChunkRegistry, Generation, Place, CHUNK_RANGE,
};

pub use crate::tracing::TraceId;

verus! {

/// What the first trace id of a thread is preceded by.
pub const FIRST_PREV: u64 = 0x3ff;

/// Sets the generator to generate trace ids with the provided `node_no`.
/// The value `65535` is used if isn't called.
pub fn set_node_no(cell: &mut NodeCell, node_no: u16)
    ensures
        final(cell).raw == node_no,
{
    cell.raw = node_no;
}

/// The part of an id below the time: the one that follows the previous id, or
/// the beginning of the next chunk if the counter is exhausted.
pub open spec fn next_not_ts(prev: u64, node_no: u16, next_chunk: u64) -> int {
    if prev % 0x400 == 0x3ff {
        node_no * 0x40_0000 + (next_chunk % 0x1000) * 0x400 + 1
    } else {
        prev % 0x40_0000_0000 + 1
    }
}

/// The id that follows `prev`.
pub open spec fn next_raw(prev: u64, node_no: u16, next_chunk: u64, unix_time_secs: u64) -> int {
    (unix_time_secs % 0x200_0000) * 0x40_0000_0000 + next_not_ts(prev, node_no, next_chunk)
}

/// Where the id is.
pub open spec fn place(raw: u64) -> Place {
    Place { chunk_no: (raw / 0x400 % 0x1000) as u32, counter: (raw % 0x400) as u32 }
}

/// Generates a new trace id according to the next layout:
/// * 1  bit  0 (zero)
/// * 25 bits timestamp in secs
/// * 16 bits node_no
/// * 12 bits (chunk_no & 0xfff)
/// * 10 bits counter
pub fn generate(
    prev: &mut TraceId,
    node: &NodeCell,
    chunk_registry: &mut ChunkRegistry,
    unix_time_secs: u64,
) -> (trace_id: TraceId)
    ensures
        trace_id == *final(prev),
        trace_id.raw() == next_raw(
            old(prev).raw(),
            node.raw,
            old(chunk_registry).next,
            unix_time_secs,
        ),
        place(old(prev).raw()).advances(
            *old(chunk_registry),
            place(trace_id.raw()),
            *final(chunk_registry),
        ),
{
    let new_trace_id = do_generate(*prev, node, chunk_registry, unix_time_secs);
    *prev = new_trace_id;
    new_trace_id
}

fn do_generate(
    prev: TraceId,
    node: &NodeCell,
    chunk_registry: &mut ChunkRegistry,
    unix_time_secs: u64,
) -> (trace_id: TraceId)
    ensures
        trace_id.raw() == next_raw(prev.raw(), node.raw, old(chunk_registry).next, unix_time_secs),
        place(prev.raw()).advances(
            *old(chunk_registry),
            place(trace_id.raw()),
            *final(chunk_registry),
        ),
{
    let raw: u64 = prev.to_raw();
    proof {
        lemma_masks(raw);
    }

    // Check whether the chunk is exhausted.
    let not_ts: u64 = if raw & 0x3ff == 0x3ff {
        next_chunk(node, chunk_registry)
    } else {
        (raw & 0x3f_ffff_ffff) + 1
    };

    proof {
        lemma_put_time(unix_time_secs, not_ts);
    }
    TraceId::from_raw((unix_time_secs & 0x1ff_ffff) << 38 | not_ts)
}

fn next_chunk(node: &NodeCell, chunk_registry: &mut ChunkRegistry) -> (not_ts: u64)
    ensures
        not_ts == node.raw * 0x40_0000 + (old(chunk_registry).next % 0x1000) * 0x400 + 1,
        not_ts / 0x400 % 0x1000 == old(chunk_registry).next % 0x1000,
        not_ts % 0x400 == 1,
        final(chunk_registry).next == (if old(chunk_registry).next == u64::MAX {
            0
        } else {
            (old(chunk_registry).next + 1) as u64
        }),
{
    let node_no: u64 = node.raw as u64;
    let chunk_no: u64 = chunk_registry.next_chunk() as u64;
    assert((node_no << 22 | chunk_no << 10 | 1) == node_no * 0x40_0000 + chunk_no * 0x400 + 1 && (
    node_no << 22 | chunk_no << 10 | 1) / 0x400 % 0x1000 == chunk_no && (node_no << 22 | chunk_no
        << 10 | 1) % 0x400 == 1) by (bit_vector)
        requires
            node_no <= 0xffff,
            chunk_no < 0x1000,
    ;
    node_no << 22 | chunk_no << 10 | 1
}

proof fn lemma_masks(raw: u64)
    by (bit_vector)
    ensures
        raw & 0x3ff == raw % 0x400,
        raw & 0x3f_ffff_ffff == raw % 0x40_0000_0000,
        raw % 0x400 != 0x3ff ==> raw % 0x40_0000_0000 < 0x3f_ffff_ffff,
        raw % 0x400 != 0x3ff ==> ((raw & 0x3f_ffff_ffff) + 1) as u64 / 0x400 % 0x1000 == raw / 0x400
            % 0x1000,
        raw % 0x400 != 0x3ff ==> ((raw & 0x3f_ffff_ffff) + 1) as u64 % 0x400 == raw % 0x400 + 1,
{
}

proof fn lemma_put_time(ts: u64, not_ts: u64)
    by (bit_vector)
    requires
        0 < not_ts < 0x40_0000_0000,
    ensures
        ((ts & 0x1ff_ffff) << 38 | not_ts) == (ts % 0x200_0000) * 0x40_0000_0000 + not_ts,
        ((ts & 0x1ff_ffff) << 38 | not_ts) / 0x400 % 0x1000 == not_ts / 0x400 % 0x1000,
        ((ts & 0x1ff_ffff) << 38 | not_ts) % 0x400 == not_ts % 0x400,
{
}

// === Laws ===

/// Inside a chunk and a second, ids are consecutive numbers.
pub proof fn ids_in_a_chunk_are_consecutive(prev: u64, node_no: u16, next_chunk: u64, ts: u64)
    requires
        prev % 0x400 != 0x3ff,
        prev < 0x8000_0000_0000_0000,
        ts % 0x200_0000 == prev / 0x40_0000_0000,
    ensures
        next_raw(prev, node_no, next_chunk, ts) == prev + 1,
{
}

/// A second later, the next id is greater by the unit of time and one.
pub proof fn time_is_above_the_rest(prev: u64, node_no: u16, next_chunk: u64, ts: u64, later: u64)
    ensures
        next_raw(prev, node_no, next_chunk, later) - next_raw(prev, node_no, next_chunk, ts) == (
        later % 0x200_0000 - ts % 0x200_0000) * 0x40_0000_0000,
{
}

/// Ids are 63-bit numbers.
pub proof fn ids_are_63_bit(prev: u64, node_no: u16, next_chunk: u64, ts: u64)
    ensures
        0 < next_raw(prev, node_no, next_chunk, ts) < 0x8000_0000_0000_0000,
{
    lemma_masks(prev);
}

/// No trace id is generated twice, on whatever threads, until chunks are reused.
pub proof fn ids_never_repeat(history: Seq<Generation>, i: int, j: int, a: u64, b: u64)
    requires
        is_history(history),
        taken_chunks(history) <= CHUNK_RANGE,
        0 <= i < j < history.len(),
        place(a) == history[i].after,
        place(b) == history[j].after,
    ensures
        a != b,
{
    places_never_repeat(history, i, j);
}

/// What a generated id consists of: 25 bits of the time, 16 bits of the node number, 12
/// bits of the chunk number and 10 bits of the counter. The counter goes from 1 to 1023,
/// and then a new chunk is taken.
pub proof fn ids_follow_layout(
    prev: &mut TraceId,
    node: NodeCell,
    chunk_registry: &mut ChunkRegistry,
    unix_time_secs: u64,
    trace_id: TraceId,
)
    requires
        call_ensures(generate, (prev, &node, chunk_registry, unix_time_secs), trace_id),
    ensures
        *final(prev) == trace_id,
        ({
            let before = old(prev).raw() as int;
            let raw = trace_id.raw() as int;
            let next = old(chunk_registry).next;
            &&& raw / 0x40_0000_0000 == unix_time_secs % 0x200_0000
            &&& before % 1024 != 1023 ==> {
                &&& raw % 0x40_0000_0000 == before % 0x40_0000_0000 + 1
                &&& *final(chunk_registry) == *old(chunk_registry)
            }
            &&& before % 1024 == 1023 ==> {
                &&& raw % 1024 == 1
                &&& raw / 1024 % 4096 == next % 4096
                &&& raw / 0x40_0000 % 65536 == node.raw
                &&& next < u64::MAX ==> final(chunk_registry).next == next + 1
                &&& next == u64::MAX ==> final(chunk_registry).next == 0
            }
        }),
{
    let p = old(prev).raw();
    lemma_masks(p);
    let raw = trace_id.raw() as int;
    let ts = (unix_time_secs % 0x200_0000) as int;
    let rest = next_not_ts(p, node.raw, old(chunk_registry).next);
    assert(0 <= rest < 0x40_0000_0000);
    assert(raw == ts * 0x40_0000_0000 + rest);
    if p % 0x400 == 0x3ff {
        let chunk = (old(chunk_registry).next % 0x1000) as int;
        let n = node.raw as int;
        assert(raw == (ts * 0x1_0000 + n) * 0x40_0000 + chunk * 0x400 + 1);
        assert(raw / 0x40_0000 == ts * 0x1_0000 + n);
        assert(raw == ((ts * 0x1_0000 + n) * 0x1000 + chunk) * 0x400 + 1);
        assert(raw / 0x400 == (ts * 0x1_0000 + n) * 0x1000 + chunk);
    }
}

/// The node number is what is set.
pub proof fn node_number_is_set(cell: &mut NodeCell, node_no: u16)
    requires
        call_ensures(set_node_no, (cell, node_no), ()),
    ensures
        final(cell).raw == node_no,
{
}

} // verus!
