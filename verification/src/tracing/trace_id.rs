use vstd::prelude::*;
use vstd::std_specs::convert::{FromSpecImpl, TryFromSpec, TryFromSpecImpl};

use crate::addr::{node_bits, NodeNo};

verus! {

/// The struct that represents the trace id, never zero.
#[derive(Debug, Clone, Copy, PartialEq, Eq, Structural, Hash)]
pub struct TraceId {
    raw: u64,
}

/// Zero is not a trace id.
#[derive(Debug, Clone, Copy, PartialEq, Eq, Structural)]
pub struct ZeroTraceId;

/// The number of values of a truncated time.
pub const TIME_RANGE: u32 = 0x200_0000;

/// The number of values of a bottom part.
pub const BOTTOM_RANGE: u32 = 0x40_0000;

impl TraceId {
    /// The trace id as a number.
    pub closed spec fn raw(self) -> u64 {
        self.raw
    }

    #[verifier::type_invariant]
    closed spec fn nonzero(self) -> bool {
        self.raw != 0
    }

    /// Builds a trace id out of its raw form.
    pub fn from_raw(raw: u64) -> (trace_id: TraceId)
        requires
            raw != 0,
        ensures
            trace_id.raw() == raw,
    {
        TraceId { raw }
    }

    /// Returns the trace id as a number.
    pub fn to_raw(self) -> (raw: u64)
        ensures
            raw == self.raw(),
            raw != 0,
    {
        proof {
            use_type_invariant(&self);
        }
        self.raw
    }

    /// Puts the parts of a trace id together.
    ///
    /// The parts don't overlap, so each one can be read back.
    pub fn from_layout(layout: TraceIdLayout) -> (trace_id: TraceId)
        requires
            layout.wf(),
        ensures
            trace_id.raw() == layout.compose(),
    {
        let node_no: u16 = match layout.node_no {
            Some(no) => no.into_bits(),
            None => 0,
        };
        let timestamp: u32 = layout.timestamp.secs;
        let bottom: u32 = layout.bottom.value;
        proof {
            lemma_pack(timestamp, node_no, bottom);
        }
        let raw: u64 = ((timestamp as u64) << 38) | ((node_no as u64) << 22) | (bottom as u64);
        TraceId { raw }
    }

    /// Splits the trace id into parts. The highest bit is ignored.
    pub fn to_layout(self) -> (layout: TraceIdLayout)
        ensures
            layout.timestamp.secs == timestamp_of(self.raw()),
            node_bits(layout.node_no) == node_no_of(self.raw()),
            layout.bottom.value == bottom_of(self.raw()),
    {
        let raw = self.raw;
        proof {
            lemma_unpack(raw);
        }
        TraceIdLayout {
            timestamp: TruncatedTime { secs: (raw >> 38) as u32 & 0x1ff_ffff },
            node_no: NodeNo::from_bits(((raw >> 22) & 0xffff) as u16),
            bottom: Bottom { value: (raw & 0x3f_ffff) as u32 },
        }
    }
}

impl TryFrom<u64> for TraceId {
    type Error = ZeroTraceId;

    fn try_from(raw: u64) -> (res: Result<TraceId, ZeroTraceId>) {
        if raw == 0 {
            Err(ZeroTraceId)
        } else {
            Ok(TraceId { raw })
        }
    }
}

impl TryFromSpecImpl<u64> for TraceId {
    open spec fn obeys_try_from_spec() -> bool {
        true
    }

    closed spec fn try_from_spec(raw: u64) -> Result<TraceId, ZeroTraceId> {
        if raw == 0 {
            Err(ZeroTraceId)
        } else {
            Ok(TraceId { raw })
        }
    }
}

impl From<TraceId> for u64 {
    fn from(trace_id: TraceId) -> (raw: u64) {
        trace_id.raw
    }
}

impl FromSpecImpl<TraceId> for u64 {
    open spec fn obeys_from_spec() -> bool {
        true
    }

    open spec fn from_spec(trace_id: TraceId) -> u64 {
        trace_id.raw()
    }
}

/// What [`TraceId::try_from`] returns: an error for zero, otherwise the trace
/// id with that number.
pub proof fn trace_id_try_from_is_partial(raw: u64)
    ensures
        raw == 0 ==> <TraceId as TryFromSpec<u64>>::try_from_spec(raw) is Err,
        raw != 0 ==> (<TraceId as TryFromSpec<u64>>::try_from_spec(raw) matches Ok(trace_id)
            && trace_id.raw() == raw),
{
}

// === TraceIdLayout ===

/// The parts of a trace id.
#[derive(Debug, Clone, Copy)]
pub struct TraceIdLayout {
    pub timestamp: TruncatedTime,
    pub node_no: Option<NodeNo>,
    pub bottom: Bottom,
}

impl TraceIdLayout {
    /// Every part fits its width and they aren't all zero.
    pub open spec fn wf(self) -> bool {
        &&& self.timestamp.wf()
        &&& self.bottom.value < BOTTOM_RANGE
        &&& self.compose() != 0
    }

    /// The number made of the parts.
    pub open spec fn compose(self) -> int {
        self.timestamp.secs * 0x40_0000_0000 + node_bits(self.node_no) * 0x40_0000
            + self.bottom.value
    }
}

/// The time in a raw trace id.
pub open spec fn timestamp_of(raw: u64) -> int {
    (raw as int / 0x40_0000_0000) % (TIME_RANGE as int)
}

/// The node number in a raw trace id, zero if absent.
pub open spec fn node_no_of(raw: u64) -> int {
    (raw as int / 0x40_0000) % 0x1_0000
}

/// The bottom part of a raw trace id.
pub open spec fn bottom_of(raw: u64) -> int {
    raw as int % (BOTTOM_RANGE as int)
}

/// 25-bit time in seconds.
#[derive(Debug, Clone, Copy, PartialEq, Eq, Structural)]
pub struct TruncatedTime {
    pub secs: u32,
}

impl TruncatedTime {
    pub open spec fn wf(self) -> bool {
        self.secs < TIME_RANGE
    }

    /// Truncates a unix time in seconds.
    pub fn now(unix_time_secs: u64) -> (time: TruncatedTime)
        ensures
            time.wf(),
            time.secs == unix_time_secs % (TIME_RANGE as u64),
    {
        assert((unix_time_secs as u32) & 0x1ff_ffff == unix_time_secs % 0x200_0000) by (bit_vector);
        TruncatedTime { secs: unix_time_secs as u32 & 0x1ff_ffff }
    }

    /// The distance between two times on the circle of truncated times.
    pub open spec fn distance(self, other: TruncatedTime) -> int {
        let there = (self.secs - other.secs) % (TIME_RANGE as int);
        let back = (other.secs - self.secs) % (TIME_RANGE as int);
        if there <= back {
            there
        } else {
            back
        }
    }

    /// Returns the distance between two times, whatever their order is and
    /// even if one of them has already wrapped around.
    pub fn abs_delta(self, other: TruncatedTime) -> (delta: u32)
        ensures
            delta == self.distance(other),
    {
        let x = self.secs;
        let y = other.secs;
        let a: u32 = x.wrapping_sub(y) & 0x1ff_ffff;
        let b: u32 = y.wrapping_sub(x) & 0x1ff_ffff;
        proof {
            lemma_mask_25(x.wrapping_sub(y));
            lemma_mask_25(y.wrapping_sub(x));
        }
        if a <= b {
            a
        } else {
            b
        }
    }
}

/// 22-bit bottom part (usually, a counter).
#[derive(Debug, Clone, Copy, PartialEq, Eq, Structural)]
pub struct Bottom {
    pub value: u32,
}

impl Bottom {
    /// Wraps a nonzero 22-bit value.
    pub fn new(value: u32) -> (bottom: Bottom)
        requires
            1 <= value < BOTTOM_RANGE,
        ensures
            bottom.value == value,
    {
        Bottom { value }
    }
}

// === Laws ===

/// A trace id with the zero highest bit survives splitting into parts and
/// putting them together again.
pub proof fn layout_roundtrip(trace_id: TraceId, layout: TraceIdLayout)
    requires
        trace_id.raw() < 0x8000_0000_0000_0000,
        layout.timestamp.secs == timestamp_of(trace_id.raw()),
        node_bits(layout.node_no) == node_no_of(trace_id.raw()),
        layout.bottom.value == bottom_of(trace_id.raw()),
    ensures
        layout.compose() == trace_id.raw(),
{
    let raw = trace_id.raw() as int;
    assert(raw / 0x40_0000_0000 == (raw / 0x40_0000) / 0x1_0000);
}

/// The parts of a trace id can be read back from what they were made into.
pub proof fn layout_parts_are_independent(layout: TraceIdLayout, raw: u64)
    requires
        layout.wf(),
        raw == layout.compose(),
    ensures
        timestamp_of(raw) == layout.timestamp.secs,
        node_no_of(raw) == node_bits(layout.node_no),
        bottom_of(raw) == layout.bottom.value,
        raw < 0x8000_0000_0000_0000,
{
    let t = layout.timestamp.secs as int;
    let n = node_bits(layout.node_no) as int;
    let b = layout.bottom.value as int;
    assert(raw as int / 0x40_0000_0000 == t);
    assert(raw as int / 0x40_0000 == t * 0x1_0000 + n);
}

/// The distance is symmetric, at most half of the circle and zero only
/// between equal times.
pub proof fn distance_is_a_metric(a: TruncatedTime, b: TruncatedTime)
    requires
        a.wf(),
        b.wf(),
    ensures
        a.distance(b) == b.distance(a),
        0 <= a.distance(b) <= TIME_RANGE / 2,
        a.distance(b) == 0 <==> a == b,
{
}

proof fn lemma_pack(t: u32, n: u16, b: u32)
    by (bit_vector)
    requires
        t < 0x200_0000,
        b < 0x40_0000,
    ensures
        (((t as u64) << 38) | ((n as u64) << 22) | (b as u64)) == t * 0x40_0000_0000 + n
            * 0x40_0000 + b,
{
}

proof fn lemma_unpack(raw: u64)
    by (bit_vector)
    ensures
        ((raw >> 38) as u32 & 0x1ff_ffff) == (raw / 0x40_0000_0000) % 0x200_0000,
        (((raw >> 22) & 0xffff) as u16) == (raw / 0x40_0000) % 0x1_0000,
        ((raw & 0x3f_ffff) as u32) == raw % 0x40_0000,
{
}

proof fn lemma_mask_25(x: u32)
    by (bit_vector)
    ensures
        x & 0x1ff_ffff == x % 0x200_0000,
{
}

/// A trace id is restored from its number, only zero isn't a trace id.
pub proof fn numbers_are_restored(
    raw: u64,
    trace_id: TraceId,
    to: u64,
    res: Result<TraceId, ZeroTraceId>,
    from: u64,
)
    requires
        call_ensures(TraceId::from_raw, (raw,), trace_id),
        call_ensures(TraceId::to_raw, (trace_id,), to),
        call_ensures(<TraceId as TryFrom<u64>>::try_from, (raw,), res),
        call_ensures(<u64 as From<TraceId>>::from, (trace_id,), from),
    ensures
        to == raw && from == raw,
        raw == 0 ==> res is Err,
        raw != 0 ==> res is Ok && res->Ok_0.raw() == raw,
{
}

/// Parts of a trace id are restored from it, whatever they are.
pub proof fn parts_are_restored(layout: TraceIdLayout, trace_id: TraceId, parts: TraceIdLayout)
    requires
        layout.wf(),
        call_ensures(TraceId::from_layout, (layout,), trace_id),
        call_ensures(TraceId::to_layout, (trace_id,), parts),
    ensures
        parts.timestamp == layout.timestamp,
        node_bits(parts.node_no) == node_bits(layout.node_no),
        parts.bottom == layout.bottom,
{
    layout_parts_are_independent(layout, trace_id.raw());
}

/// Where parts are: the highest bit is ignored, then 25 bits of the time, 16 bits of the
/// node number and 22 bits of the rest.
pub proof fn parts_have_places(trace_id: TraceId, parts: TraceIdLayout)
    requires
        call_ensures(TraceId::to_layout, (trace_id,), parts),
    ensures
        ({
            let raw = trace_id.raw();
            &&& parts.timestamp.secs == (raw >> 38) & 0x1ff_ffff
            &&& node_bits(parts.node_no) == (raw >> 22) & 0xffff
            &&& parts.bottom.value == raw & 0x3f_ffff
        }),
{
    let raw = trace_id.raw();
    assert((raw >> 38) & 0x1ff_ffff == (raw / 0x40_0000_0000) % 0x200_0000 && (raw >> 22) & 0xffff
        == (raw / 0x40_0000) % 0x1_0000 && raw & 0x3f_ffff == raw % 0x40_0000) by (bit_vector);
}

/// The time is truncated to 25 bits, and distances are measured along the shorter way.
pub proof fn times_are_on_circle(
    unix_time_secs: u64,
    time: TruncatedTime,
    a: TruncatedTime,
    b: TruncatedTime,
    delta: u32,
    value: u32,
    bottom: Bottom,
)
    requires
        call_ensures(TruncatedTime::now, (unix_time_secs,), time),
        a.secs < 0x200_0000 && b.secs < 0x200_0000,
        call_ensures(TruncatedTime::abs_delta, (a, b), delta),
        call_ensures(Bottom::new, (value,), bottom),
    ensures
        time.secs == unix_time_secs % 0x200_0000,
        ({
            let d = if a.secs >= b.secs {
                a.secs - b.secs
            } else {
                b.secs - a.secs
            };
            &&& d <= 0x100_0000 ==> delta == d
            &&& d > 0x100_0000 ==> delta == 0x200_0000 - d
        }),
        bottom.value == value,
{
}

} // verus!
