use vstd::prelude::*;

use super::trace_id::{node_no_of, timestamp_of, TraceId, TruncatedTime};
use crate::addr::{node_bits, NodeNo};
use crate::time::{Nanos, NANOS_PER_SECOND};

verus! {

/// A [`TraceId`] validator.
///
/// By default, it checks the following properties:
/// * Cannot be zero.
/// * Must be 63-bit.
/// * Cannot have the same node no, because it's sent outside the elfo system.
///
/// Optionally, it can also check the time difference, see
/// [`TraceIdValidator::max_time_difference`].
#[derive(Debug, Clone, Copy)]
pub struct TraceIdValidator {
    pub max_time_difference: Option<Nanos>,
}

// Errors
pub const CANNOT_BE_ZERO: &'static str = "cannot be zero";

pub const HIGHEST_BIT_MUST_BE_ZERO: &'static str = "highest bit must be zero";

pub const INVALID_NODE_NO: &'static str = "invalid node no";

pub const INVALID_TIMESTAMP: &'static str = "invalid timestamp";

impl Default for TraceIdValidator {
    /// The time difference isn't checked by default.
    fn default() -> (validator: TraceIdValidator)
        ensures
            validator.max_time_difference is None,
    {
        TraceIdValidator { max_time_difference: None }
    }
}

impl TraceIdValidator {
    /// Allowed time difference between now and timestamp in a raw trace id.
    /// Checks the absolute difference to handle both situations:
    /// * Too old timestamp, possible incorrectly generated.
    /// * Too new timestamp, something wrong with time synchronization.
    pub fn max_time_difference(&mut self, time_lag: Option<Nanos>) -> (validator: TraceIdValidator)
        ensures
            final(self).max_time_difference == time_lag,
            validator == *final(self),
    {
        self.max_time_difference = time_lag;
        *self
    }

    /// Whether the timestamp of a raw trace id is too far from now.
    pub open spec fn is_out_of_time(self, raw_trace_id: u64, unix_time_secs: u64) -> bool {
        match self.max_time_difference {
            Some(time_lag) => {
                let now = TruncatedTime { secs: (unix_time_secs % 0x200_0000) as u32 };
                let timestamp = TruncatedTime { secs: timestamp_of(raw_trace_id) as u32 };
                now.distance(timestamp) > time_lag as int / NANOS_PER_SECOND as int
            },
            None => false,
        }
    }

    /// Validates a raw trace id transforms it into [`TraceId`] if valid.
    pub fn validate(
        &self,
        raw_trace_id: u64,
        node_no: Option<NodeNo>,
        unix_time_secs: u64,
    ) -> (res: Result<TraceId, &'static str>)
        ensures
            raw_trace_id == 0 ==> res == Err::<TraceId, &str>(CANNOT_BE_ZERO),
            raw_trace_id >= 0x8000_0000_0000_0000 ==> res == Err::<TraceId, &str>(
                HIGHEST_BIT_MUST_BE_ZERO,
            ),
            0 < raw_trace_id < 0x8000_0000_0000_0000 && node_no_of(raw_trace_id) == node_bits(
                node_no,
            ) ==> res == Err::<TraceId, &str>(INVALID_NODE_NO),
            0 < raw_trace_id < 0x8000_0000_0000_0000 && node_no_of(raw_trace_id) != node_bits(
                node_no,
            ) ==> (if self.is_out_of_time(raw_trace_id, unix_time_secs) {
                res == Err::<TraceId, &str>(INVALID_TIMESTAMP)
            } else {
                res matches Ok(trace_id) && trace_id.raw() == raw_trace_id
            }),
    {
        if raw_trace_id == 0 {
            return Err(CANNOT_BE_ZERO);
        }

        let trace_id = TraceId::from_raw(raw_trace_id);
        let layout = trace_id.to_layout();

        // The highest bit must be zero.
        assert(raw_trace_id & (1u64 << 63) != 0 <==> raw_trace_id >= 0x8000_0000_0000_0000)
            by (bit_vector);
        if raw_trace_id & (1u64 << 63) != 0 {
            return Err(HIGHEST_BIT_MUST_BE_ZERO);
        }

        // We don't allow to specify valid `node_no` for now,
        // but at least we can check that it isn't this node.
        let sender_no: u16 = match layout.node_no {
            Some(no) => no.into_bits(),
            None => 0,
        };
        let own_no: u16 = match node_no {
            Some(no) => no.into_bits(),
            None => 0,
        };
        if sender_no == own_no {
            return Err(INVALID_NODE_NO);
        }

        if let Some(time_lag) = self.max_time_difference {
            let truncated_now = TruncatedTime::now(unix_time_secs);
            let delta: u32 = truncated_now.abs_delta(layout.timestamp);

            if delta as u128 > time_lag / NANOS_PER_SECOND {
                return Err(INVALID_TIMESTAMP);
            }
        }

        Ok(trace_id)
    }
}

// === Laws ===

/// What is accepted from outside: a 63-bit number that isn't zero and doesn't have the
/// number of this node. If the time is checked, it mustn't be too far from now in either
/// direction. The first reason is reported.
pub proof fn invalid_ids_are_rejected(
    validator: TraceIdValidator,
    raw: u64,
    node_no: Option<NodeNo>,
    unix_time_secs: u64,
    now: TruncatedTime,
    delta: u32,
    res: Result<TraceId, &'static str>,
)
    requires
        call_ensures(TruncatedTime::now, (unix_time_secs,), now),
        call_ensures(
            TruncatedTime::abs_delta,
            (now, TruncatedTime { secs: ((raw as int / 0x40_0000_0000) % 0x200_0000) as u32 }),
            delta,
        ),
        call_ensures(TraceIdValidator::validate, (&validator, raw, node_no, unix_time_secs), res),
    ensures
        ({
            let is_own = (raw as int / 0x40_0000) % 65536 == node_bits(node_no);
            let limit = validator.max_time_difference;
            let is_late = limit is Some && delta > limit->0 / 1_000_000_000;
            &&& raw == 0 ==> res == Err::<TraceId, &str>("cannot be zero")
            &&& raw >= 0x8000_0000_0000_0000 ==> res == Err::<TraceId, &str>(
                "highest bit must be zero",
            )
            &&& 0 < raw < 0x8000_0000_0000_0000 && is_own ==> res == Err::<TraceId, &str>(
                "invalid node no",
            )
            &&& 0 < raw < 0x8000_0000_0000_0000 && !is_own && is_late ==> res == Err::<
                TraceId,
                &str,
            >("invalid timestamp")
            &&& 0 < raw < 0x8000_0000_0000_0000 && !is_own && !is_late ==> res is Ok
                && res->Ok_0.raw() == raw
        }),
{
}

/// The time isn't checked unless it's asked for.
pub proof fn time_is_checked_if_asked(
    fresh: TraceIdValidator,
    validator: &mut TraceIdValidator,
    limit: Option<Nanos>,
    res: TraceIdValidator,
)
    requires
        call_ensures(<TraceIdValidator as Default>::default, (), fresh),
        call_ensures(TraceIdValidator::max_time_difference, (validator, limit), res),
    ensures
        fresh.max_time_difference is None,
        res.max_time_difference == limit && final(validator).max_time_difference == limit,
{
}

} // verus!
