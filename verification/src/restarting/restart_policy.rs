use vstd::prelude::*;

use crate::actor::ActorStatus;
use crate::time::Nanos;

verus! {

/// 2.0 in the IEEE 754 binary form.
pub const DEFAULT_FACTOR: u64 = 0x4000_0000_0000_0000;

/// The binary form of infinity. Greater forms are of NaNs and negative numbers.
pub const INFINITE_FACTOR: u64 = 0x7ff0_0000_0000_0000;

/// The behaviour on actor termination.
#[derive(Debug, Clone, Copy, PartialEq, Eq, Structural)]
pub struct RestartPolicy {
    pub mode: RestartMode,
}

#[derive(Debug, Clone, Copy, PartialEq, Eq, Structural)]
pub enum RestartMode {
    Always(RestartParams),
    OnFailure(RestartParams),
    Never,
}

impl Default for RestartPolicy {
    fn default() -> (policy: RestartPolicy)
        ensures
            policy.mode is Never,
    {
        RestartPolicy::never()
    }
}

impl RestartPolicy {
    pub fn always(restart_params: RestartParams) -> (policy: RestartPolicy)
        ensures
            policy.mode == RestartMode::Always(restart_params),
    {
        RestartPolicy { mode: RestartMode::Always(restart_params) }
    }

    pub fn on_failure(restart_params: RestartParams) -> (policy: RestartPolicy)
        ensures
            policy.mode == RestartMode::OnFailure(restart_params),
    {
        RestartPolicy { mode: RestartMode::OnFailure(restart_params) }
    }

    pub fn never() -> (policy: RestartPolicy)
        ensures
            policy.mode is Never,
    {
        RestartPolicy { mode: RestartMode::Never }
    }

    /// Whether an actor that ends with the status is restarted.
    pub open spec fn allows(&self, is_failed: bool) -> bool {
        match self.mode {
            RestartMode::Always(_) => true,
            RestartMode::OnFailure(_) => is_failed,
            RestartMode::Never => false,
        }
    }

    pub fn restarting_allowed(&self, status: &ActorStatus) -> (res: bool)
        ensures
            res == self.allows(status.spec_is_failed()),
    {
        match &self.mode {
            RestartMode::Always(_) => true,
            RestartMode::OnFailure(_) => status.is_failed(),
            RestartMode::Never => false,
        }
    }

    /// Parameters of the policy.
    pub open spec fn params(&self) -> Option<RestartParams> {
        match self.mode {
            RestartMode::Always(params) => Some(params),
            RestartMode::OnFailure(params) => Some(params),
            RestartMode::Never => None,
        }
    }

    pub fn restart_params(&self) -> (res: Option<RestartParams>)
        ensures
            res == self.params(),
    {
        match &self.mode {
            RestartMode::Always(params) => Some(*params),
            RestartMode::OnFailure(params) => Some(*params),
            RestartMode::Never => None,
        }
    }
}

/// Restart parameters for the backoff strategy when an actor restarts based on
/// the [RestartPolicy].
#[derive(Debug, Clone, Copy, PartialEq, Eq, Structural)]
pub struct RestartParams {
    pub min_backoff: Nanos,
    pub max_backoff: Nanos,
    pub auto_reset: Nanos,
    pub max_retries: u64,
    /// In the IEEE 754 binary form.
    pub factor: u64,
}

impl RestartParams {
    pub open spec fn wf(&self) -> bool {
        &&& self.min_backoff <= self.max_backoff
        &&& self.max_retries > 0
        &&& self.factor < INFINITE_FACTOR
    }

    /// Creates a new instance with the specified minimum and maximum backoff
    /// durations. The default values for `auto_reset`, `max_retries`, and
    /// `factor` are set as follows:
    /// - `auto_reset = min_backoff`
    /// - `max_retries = u64::MAX`
    /// - `factor = 2.0`
    pub fn new(min_backoff: Nanos, max_backoff: Nanos) -> (this: RestartParams)
        ensures
            this.wf(),
            this.min_backoff == min_backoff,
            this.max_backoff == (if min_backoff <= max_backoff {
                max_backoff
            } else {
                min_backoff
            }),
            this.auto_reset == min_backoff,
            this.max_retries == u64::MAX,
            this.factor == DEFAULT_FACTOR,
    {
        RestartParams {
            min_backoff,
            max_backoff: if min_backoff <= max_backoff {
                max_backoff
            } else {
                min_backoff
            },
            auto_reset: min_backoff,
            max_retries: u64::MAX,
            factor: DEFAULT_FACTOR,
        }
    }

    /// Sets the duration deemed sufficient to consider an actor healthy. Once
    /// this duration elapses, the backoff strategy automatically resets,
    /// including retry counting, effectively treating the next attempt as the
    /// first retry. Therefore, setting the `auto_reset` to small values,
    /// such as zero, can result in the absence of a limit on
    /// the maximum number of retries. After the backoff strategy resets, the
    /// actor will restart immediately.
    ///
    /// `None` does not change the `auto_reset` setting.
    ///
    /// If the function isn't used, `auto_reset = min_backoff` is used by
    /// default.
    pub fn auto_reset(self, auto_reset: Option<Nanos>) -> (this: RestartParams)
        ensures
            this == (RestartParams {
                auto_reset: match auto_reset {
                    Some(value) => value,
                    None => self.auto_reset,
                },
                ..self
            }),
            self.wf() ==> this.wf(),
    {
        RestartParams {
            auto_reset: match auto_reset {
                Some(value) => value,
                None => self.auto_reset,
            },
            ..self
        }
    }

    /// Sets the factor used to calculate the next backoff duration.
    /// The factor should be a finite value and should not be negative;
    /// otherwise, zero is used.
    ///
    /// `None` value does not change the `factor` setting.
    ///
    /// If the function isn't used, `factor = 2.0` is used by default.
    pub fn factor(self, factor: Option<u64>) -> (this: RestartParams)
        ensures
            ({
                let factor = match factor {
                    Some(value) => value,
                    None => self.factor,
                };
                this == (RestartParams {
                    factor: if factor < INFINITE_FACTOR {
                        factor
                    } else {
                        0
                    },
                    ..self
                })
            }),
            self.wf() ==> this.wf(),
    {
        let factor: u64 = match factor {
            Some(value) => value,
            None => self.factor,
        };
        let factor: u64 = if factor < INFINITE_FACTOR {
            factor
        } else {
            0
        };
        RestartParams { factor, ..self }
    }

    /// Sets the maximum number of allowed retries. Each time the actor
    /// restarts, it counts as a retry. If the retries reach the specified
    /// max_retries, the actor stops restarting. If the actor lives long
    /// enough to be considered healthy (see [RestartParams::auto_reset]), the
    /// restart count goes back to zero, and the next restart is considered
    /// the first retry again.
    ///
    /// `None` does not change the `max_retries` setting.
    ///
    /// If the function isn't used, `max_retries = u64::MAX` is used by
    /// default.
    pub fn max_retries(self, max_retries: Option<u64>) -> (this: RestartParams)
        requires
            max_retries != Some(0u64),
        ensures
            this == (RestartParams {
                max_retries: match max_retries {
                    Some(value) => value,
                    None => self.max_retries,
                },
                ..self
            }),
            self.wf() ==> this.wf(),
    {
        RestartParams {
            max_retries: match max_retries {
                Some(value) => value,
                None => self.max_retries,
            },
            ..self
        }
    }
}

// === Laws ===

/// Whether an actor is restarted: always, only if it has failed, or never.
pub proof fn policies_differ_on_failures(
    params: RestartParams,
    status: ActorStatus,
    always: RestartPolicy,
    on_failure: RestartPolicy,
    never: RestartPolicy,
    a: bool,
    b: bool,
    c: bool,
)
    requires
        call_ensures(RestartPolicy::always, (params,), always),
        call_ensures(RestartPolicy::on_failure, (params,), on_failure),
        call_ensures(RestartPolicy::never, (), never),
        call_ensures(RestartPolicy::restarting_allowed, (&always, &status), a),
        call_ensures(RestartPolicy::restarting_allowed, (&on_failure, &status), b),
        call_ensures(RestartPolicy::restarting_allowed, (&never, &status), c),
    ensures
        a,
        b <==> status.kind is Failed,
        !c,
{
}

/// A policy keeps its parameters, if it has any.
pub proof fn policies_keep_params(
    params: RestartParams,
    always: RestartPolicy,
    on_failure: RestartPolicy,
    never: RestartPolicy,
    a: Option<RestartParams>,
    b: Option<RestartParams>,
    c: Option<RestartParams>,
)
    requires
        call_ensures(RestartPolicy::always, (params,), always),
        call_ensures(RestartPolicy::on_failure, (params,), on_failure),
        call_ensures(RestartPolicy::never, (), never),
        call_ensures(RestartPolicy::restart_params, (&always,), a),
        call_ensures(RestartPolicy::restart_params, (&on_failure,), b),
        call_ensures(RestartPolicy::restart_params, (&never,), c),
    ensures
        a == Some(params),
        b == Some(params),
        c is None,
{
}

/// Each setter sets its own parameter and nothing else, and nothing at all if it's
/// absent.
pub proof fn setters_are_independent(
    params: RestartParams,
    auto_reset: Option<Nanos>,
    max_retries: Option<u64>,
    factor: Option<u64>,
    a: RestartParams,
    b: RestartParams,
    c: RestartParams,
)
    requires
        params.wf(),
        call_ensures(RestartParams::auto_reset, (params, auto_reset), a),
        call_ensures(RestartParams::max_retries, (params, max_retries), b),
        call_ensures(RestartParams::factor, (params, factor), c),
    ensures
        auto_reset is None ==> a == params,
        auto_reset is Some ==> a.auto_reset == auto_reset->0,
        a.max_retries == params.max_retries && a.factor == params.factor,
        a.min_backoff == params.min_backoff && a.max_backoff == params.max_backoff,
        max_retries is None ==> b == params,
        max_retries is Some ==> b.max_retries == max_retries->0,
        b.auto_reset == params.auto_reset && b.factor == params.factor,
        b.min_backoff == params.min_backoff && b.max_backoff == params.max_backoff,
        factor is None ==> c == params,
        factor is Some && factor->0 < 0x7ff0_0000_0000_0000 ==> c.factor == factor->0,
        factor is Some && factor->0 >= 0x7ff0_0000_0000_0000 ==> c.factor == 0,
        c.auto_reset == params.auto_reset && c.max_retries == params.max_retries,
        c.min_backoff == params.min_backoff && c.max_backoff == params.max_backoff,
{
}

/// New parameters: restarts aren't limited, delays are doubled, and an actor is
/// healthy once it has been alive for the least delay.
pub proof fn new_parameters_have_defaults(
    min_backoff: Nanos,
    max_backoff: Nanos,
    params: RestartParams,
)
    requires
        call_ensures(RestartParams::new, (min_backoff, max_backoff), params),
    ensures
        params.min_backoff == min_backoff,
        params.max_backoff >= min_backoff && params.max_backoff >= max_backoff,
        params.max_backoff == min_backoff || params.max_backoff == max_backoff,
        params.auto_reset == min_backoff,
        params.max_retries == u64::MAX,
        params.factor == 0x4000_0000_0000_0000,
{
}

/// Actors aren't restarted by default.
pub proof fn no_restarts_by_default(policy: RestartPolicy, status: ActorStatus, res: bool)
    requires
        call_ensures(<RestartPolicy as Default>::default, (), policy),
        call_ensures(RestartPolicy::restarting_allowed, (&policy, &status), res),
    ensures
        !res,
{
}

} // verus!
