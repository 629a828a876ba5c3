use vstd::prelude::*;

use super::restart_policy::RestartParams;
use crate::time::Nanos;

verus! {

/// Decides when an actor should be restarted.
#[derive(Debug, Clone, Copy, PartialEq, Eq, Structural)]
pub struct RestartBackoff {
    /// When the actor has been started.
    pub start_time: Nanos,
    pub restart_count: u64,
    pub power: u64,
}

impl RestartBackoff {
    /// A new backoff for an actor that is started right now.
    pub fn new(now: Nanos) -> (this: RestartBackoff)
        ensures
            this == (RestartBackoff { start_time: now, restart_count: 0, power: 0 }),
    {
        RestartBackoff { start_time: now, restart_count: 0, power: 0 }
    }

    /// Must be called each time the actor is restarted.
    pub fn start(&mut self, now: Nanos)
        ensures
            *final(self) == (RestartBackoff { start_time: now, ..*old(self) }),
    {
        self.start_time = now;
    }

    /// Whether the actor has been alive enough time to be considered healthy.
    pub open spec fn is_reset(self, params: RestartParams, now: Nanos) -> bool {
        let elapsed = if now >= self.start_time {
            now - self.start_time
        } else {
            0
        };
        elapsed >= params.auto_reset
    }

    /// The state after the next failure.
    pub open spec fn spec_next(self, params: RestartParams, now: Nanos) -> RestartBackoff {
        if self.is_reset(params, now) {
            RestartBackoff { restart_count: 1, power: 0, ..self }
        } else if self.restart_count + 1 > params.max_retries {
            RestartBackoff { restart_count: (self.restart_count + 1) as u64, ..self }
        } else {
            RestartBackoff {
                restart_count: (self.restart_count + 1) as u64,
                power: (self.power + 1) as u64,
                ..self
            }
        }
    }

    /// The delay before the next restart.
    pub open spec fn delay(
        self,
        params: RestartParams,
        now: Nanos,
        scaled: Option<Nanos>,
    ) -> Option<Nanos> {
        if self.is_reset(params, now) {
            Some(0)
        } else if self.restart_count + 1 > params.max_retries {
            None
        } else {
            Some(clamped(params, scaled))
        }
    }

    /// Returns the delay before the next restart, `None` if the actor shouldn't
    /// be restarted anymore.
    ///
    /// `scaled` is `min_backoff * factor ^ power`, `None` if it isn't finite.
    pub fn next(&mut self, params: &RestartParams, now: Nanos, scaled: Option<Nanos>) -> (delay:
        Option<Nanos>)
        requires
            params.wf(),
            old(self).restart_count < u64::MAX,
            old(self).power < u64::MAX,
        ensures
            *final(self) == old(self).spec_next(*params, now),
            delay == old(self).delay(*params, now, scaled),
    {
        // If an actor is alive enough time, reset the backoff.
        if now.saturating_sub(self.start_time) >= params.auto_reset {
            self.restart_count = 1;
            self.power = 0;
            return Some(0);
        }
        self.restart_count += 1;

        if self.restart_count > params.max_retries {
            return None;
        }
        self.power += 1;

        Some(
            match scaled {
                Some(scaled) => if scaled < params.min_backoff {
                    params.min_backoff
                } else if scaled > params.max_backoff {
                    params.max_backoff
                } else {
                    scaled
                },
                None => params.max_backoff,
            },
        )
    }
}

/// The delay that is brought into the allowed range.
pub open spec fn clamped(params: RestartParams, scaled: Option<Nanos>) -> Nanos {
    match scaled {
        Some(scaled) => if scaled < params.min_backoff {
            params.min_backoff
        } else if scaled > params.max_backoff {
            params.max_backoff
        } else {
            scaled
        },
        None => params.max_backoff,
    }
}

// === Laws ===

/// A delay is zero only after a healthy period, otherwise it's inside the
/// allowed range.
pub proof fn delays_are_in_range(
    backoff: RestartBackoff,
    params: RestartParams,
    now: Nanos,
    scaled: Option<Nanos>,
)
    requires
        params.wf(),
    ensures
        backoff.delay(params, now, scaled) matches Some(delay) ==> {
            ||| backoff.is_reset(params, now) && delay == 0
            ||| params.min_backoff <= delay <= params.max_backoff
        },
{
}

/// Without healthy periods, there are at most `max_retries` restarts.
pub proof fn retries_are_limited(
    backoff: RestartBackoff,
    params: RestartParams,
    now: Nanos,
    scaled: Option<Nanos>,
)
    requires
        !backoff.is_reset(params, now),
    ensures
        backoff.delay(params, now, scaled) is Some <==> backoff.restart_count < params.max_retries,
        backoff.restart_count < u64::MAX ==> backoff.spec_next(params, now).restart_count
            == backoff.restart_count + 1,
{
}

/// A call of [`RestartBackoff::start`] or of [`RestartBackoff::next`].
pub enum Call {
    Start(Nanos),
    Next(Nanos),
}

/// The state of a new backoff after all calls.
pub open spec fn state_after(created: Nanos, params: RestartParams, calls: Seq<Call>) -> RestartBackoff
    decreases calls.len(),
{
    if calls.len() == 0 {
        RestartBackoff { start_time: created, restart_count: 0, power: 0 }
    } else {
        let before = state_after(created, params, calls.drop_last());
        match calls.last() {
            Call::Start(now) => RestartBackoff { start_time: now, ..before },
            Call::Next(now) => before.spec_next(params, now),
        }
    }
}

/// When the actor has been started last time.
pub open spec fn last_start(created: Nanos, calls: Seq<Call>) -> Nanos
    decreases calls.len(),
{
    if calls.len() == 0 {
        created
    } else {
        match calls.last() {
            Call::Start(now) => now,
            Call::Next(_) => last_start(created, calls.drop_last()),
        }
    }
}

/// Whether the actor has been alive at least for `auto_reset` by the time.
pub open spec fn is_healthy(
    created: Nanos,
    params: RestartParams,
    calls: Seq<Call>,
    now: Nanos,
) -> bool {
    now - last_start(created, calls) >= params.auto_reset || params.auto_reset == 0
}

/// Whether the last call has found the actor healthy.
pub open spec fn is_resetting(created: Nanos, params: RestartParams, calls: Seq<Call>) -> bool {
    calls.last() matches Call::Next(now) && is_healthy(created, params, calls.drop_last(), now)
}

/// How many failures there are since the last reset, the one that has been found
/// after a healthy period is the first of them.
pub open spec fn failures(created: Nanos, params: RestartParams, calls: Seq<Call>) -> nat
    decreases calls.len(),
{
    if calls.len() == 0 {
        0
    } else if is_resetting(created, params, calls) {
        1
    } else {
        failures(created, params, calls.drop_last()) + if calls.last() is Next {
            1nat
        } else {
            0nat
        }
    }
}

/// How many of these failures have been followed by a delayed restart.
pub open spec fn delayed(created: Nanos, params: RestartParams, calls: Seq<Call>) -> nat
    decreases calls.len(),
{
    if calls.len() == 0 || is_resetting(created, params, calls) {
        0
    } else {
        delayed(created, params, calls.drop_last()) + if calls.last() is Next && failures(
            created,
            params,
            calls,
        ) <= params.max_retries {
            1nat
        } else {
            0nat
        }
    }
}

proof fn lemma_state(created: Nanos, params: RestartParams, calls: Seq<Call>)
    requires
        params.wf(),
        calls.len() <= u64::MAX,
    ensures
        state_after(created, params, calls).start_time == last_start(created, calls),
        state_after(created, params, calls).restart_count == failures(created, params, calls),
        state_after(created, params, calls).power == delayed(created, params, calls),
        delayed(created, params, calls) <= failures(created, params, calls) <= calls.len(),
    decreases calls.len(),
{
    if calls.len() > 0 {
        lemma_state(created, params, calls.drop_last());
    }
}

/// The delay after any calls. If the actor has been healthy, it's restarted at
/// once, and this restart is the first retry. Otherwise, there are at most
/// `max_retries` restarts, and delays are in the allowed range and grow as powers
/// of the factor: after k delayed restarts it's the k-th power.
pub proof fn delays_follow_history(
    created: Nanos,
    params: RestartParams,
    calls: Seq<Call>,
    now: Nanos,
    scaled: Option<Nanos>,
)
    requires
        params.wf(),
        calls.len() < u64::MAX,
    ensures
        ({
            let backoff = state_after(created, params, calls);
            let delay = backoff.delay(params, now, scaled);
            let failure = failures(created, params, calls.push(Call::Next(now)));
            &&& if is_healthy(created, params, calls, now) {
                delay == Some(0 as Nanos) && failure == 1
            } else {
                &&& failure == failures(created, params, calls) + 1
                &&& delay is None <==> failure > params.max_retries
                &&& delay matches Some(delay) ==> {
                    &&& params.min_backoff <= delay <= params.max_backoff
                    &&& delay == clamped(params, scaled)
                    &&& backoff.power == delayed(created, params, calls)
                }
            }
            &&& backoff.spec_next(params, now) == state_after(
                created,
                params,
                calls.push(Call::Next(now)),
            )
        }),
{
    lemma_state(created, params, calls);
    assert(calls.push(Call::Next(now)).drop_last() =~= calls);
}

/// A new backoff counts from zero and from the time of creation.
pub proof fn new_backoff_has_no_restarts(now: Nanos, backoff: RestartBackoff)
    requires
        call_ensures(RestartBackoff::new, (now,), backoff),
    ensures
        backoff.start_time == now && backoff.restart_count == 0 && backoff.power == 0,
{
}

/// How a failure is answered, in terms of how long the actor has been alive.
///
/// A healthy actor is restarted at once and its counters are reset. Another one is
/// restarted after a delay that is `scaled`, brought into the allowed range,
/// until all retries are used up.
pub proof fn failures_are_answered(
    backoff: &mut RestartBackoff,
    params: RestartParams,
    now: Nanos,
    scaled: Option<Nanos>,
    delay: Option<Nanos>,
)
    requires
        params.wf(),
        old(backoff).restart_count < u64::MAX,
        old(backoff).power < u64::MAX,
        now >= old(backoff).start_time,
        call_ensures(RestartBackoff::next, (backoff, &params, now, scaled), delay),
    ensures
        final(backoff).start_time == old(backoff).start_time,
        now - old(backoff).start_time >= params.auto_reset ==> {
            &&& delay == Some(0 as Nanos)
            &&& final(backoff).restart_count == 1
            &&& final(backoff).power == 0
        },
        now - old(backoff).start_time < params.auto_reset ==> {
            &&& final(backoff).restart_count == old(backoff).restart_count + 1
            &&& delay is None <==> old(backoff).restart_count >= params.max_retries
            &&& delay is None ==> final(backoff).power == old(backoff).power
            &&& delay is Some ==> final(backoff).power == old(backoff).power + 1
            &&& delay is Some && scaled is None ==> delay->0 == params.max_backoff
            &&& delay is Some && scaled is Some ==> {
                &&& params.min_backoff <= delay->0 <= params.max_backoff
                &&& params.min_backoff <= scaled->0 <= params.max_backoff ==> delay == scaled
                &&& scaled->0 < params.min_backoff ==> delay->0 == params.min_backoff
                &&& scaled->0 > params.max_backoff ==> delay->0 == params.max_backoff
            }
        },
{
}

/// A restart changes only the time since which the actor is alive.
pub proof fn start_keeps_counters(backoff: &mut RestartBackoff, now: Nanos)
    requires
        call_ensures(RestartBackoff::start, (backoff, now), ()),
    ensures
        final(backoff).start_time == now,
        final(backoff).restart_count == old(backoff).restart_count,
        final(backoff).power == old(backoff).power,
{
}

} // verus!
