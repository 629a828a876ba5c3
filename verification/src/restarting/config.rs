use vstd::prelude::*;

use super::restart_policy::{RestartMode, RestartParams, RestartPolicy, DEFAULT_FACTOR, INFINITE_FACTOR};
use crate::time::Nanos;

verus! {

/// Restart policy configuration, the one of a group is used by default.
///
/// # Example
/// ```toml
/// [some_group]
/// system.restart_policy.when = "OnFailure"
/// system.restart_policy.min_backoff = "5s"
/// system.restart_policy.max_backoff = "30s"
/// ```
#[derive(Debug, Clone, Copy, PartialEq, Eq, Structural)]
pub struct RestartPolicyConfig(pub Option<WhenConfig>);

/// Restart policies.
#[derive(Debug, Clone, Copy, PartialEq, Eq, Structural)]
pub enum WhenConfig {
    /// Restart both on failures and terminations.
    Always(RestartParamsConfig),
    /// Restart only on failures.
    OnFailure(RestartParamsConfig),
    /// Never restart actors.
    Never,
}

/// Restart policy parameters.
#[derive(Debug, Clone, Copy, PartialEq, Eq, Structural)]
pub struct RestartParamsConfig {
    /// Minimal restart time limit.
    pub min_backoff: Nanos,
    /// Maximum restart time limit.
    pub max_backoff: Nanos,
    /// The duration of an actor's lifecycle sufficient to deem the actor
    /// healthy.
    ///
    /// The default value is `min_backoff`.
    pub auto_reset: Option<Nanos>,
    /// The limit on retry attempts, after which the actor stops attempts to
    /// restart. Cannot be zero.
    ///
    /// Unlimited by default.
    pub max_retries: Option<u64>,
    /// The value to multiply the current delay with for each retry attempt, in
    /// the IEEE 754 binary form.
    ///
    /// Default value is 2.0.
    pub factor: Option<u64>,
}

impl Default for RestartPolicyConfig {
    fn default() -> (this: RestartPolicyConfig)
        ensures
            this.0 is None,
    {
        RestartPolicyConfig(None)
    }
}

impl RestartPolicyConfig {
    pub open spec fn wf(&self) -> bool {
        match self.0 {
            Some(WhenConfig::Always(params)) => params.wf(),
            Some(WhenConfig::OnFailure(params)) => params.wf(),
            _ => true,
        }
    }

    /// The policy that is described by the config.
    pub open spec fn policy(&self) -> Option<RestartPolicy> {
        match self.0 {
            Some(WhenConfig::Always(params)) => Some(
                RestartPolicy { mode: RestartMode::Always(params.params()) },
            ),
            Some(WhenConfig::OnFailure(params)) => Some(
                RestartPolicy { mode: RestartMode::OnFailure(params.params()) },
            ),
            Some(WhenConfig::Never) => Some(RestartPolicy { mode: RestartMode::Never }),
            None => None,
        }
    }

    pub fn make_policy(&self) -> (res: Option<RestartPolicy>)
        requires
            self.wf(),
        ensures
            res == self.policy(),
            res matches Some(policy) ==> policy.params() matches Some(params) ==> params.wf(),
    {
        match &self.0 {
            Some(WhenConfig::Always(params)) => Some(RestartPolicy::always(params.make_params())),
            Some(WhenConfig::OnFailure(params)) => Some(
                RestartPolicy::on_failure(params.make_params()),
            ),
            Some(WhenConfig::Never) => Some(RestartPolicy::never()),
            None => None,
        }
    }
}

impl RestartParamsConfig {
    pub open spec fn wf(&self) -> bool {
        self.max_retries != Some(0u64)
    }

    /// The parameters that are described by the config.
    pub open spec fn params(&self) -> RestartParams {
        RestartParams {
            min_backoff: self.min_backoff,
            max_backoff: if self.min_backoff <= self.max_backoff {
                self.max_backoff
            } else {
                self.min_backoff
            },
            auto_reset: match self.auto_reset {
                Some(value) => value,
                None => self.min_backoff,
            },
            max_retries: match self.max_retries {
                Some(value) => value,
                None => u64::MAX,
            },
            factor: match self.factor {
                Some(value) => if value < INFINITE_FACTOR {
                    value
                } else {
                    0
                },
                None => DEFAULT_FACTOR,
            },
        }
    }

    pub fn make_params(&self) -> (params: RestartParams)
        requires
            self.wf(),
        ensures
            params == self.params(),
            params.wf(),
    {
        RestartParams::new(self.min_backoff, self.max_backoff).factor(self.factor).auto_reset(
            self.auto_reset,
        ).max_retries(self.max_retries)
    }
}

// === Laws ===

/// A parameter that is set in the config is the one of the made policy, only an
/// absent one takes its default. A factor that makes no sense becomes zero.
pub proof fn set_parameters_are_used(config: RestartParamsConfig, params: RestartParams)
    requires
        call_ensures(RestartParamsConfig::make_params, (&config,), params),
    ensures
        params.min_backoff == config.min_backoff,
        config.max_backoff >= config.min_backoff ==> params.max_backoff == config.max_backoff,
        config.max_backoff < config.min_backoff ==> params.max_backoff == config.min_backoff,
        config.auto_reset is Some ==> Some(params.auto_reset) == config.auto_reset,
        config.auto_reset is None ==> params.auto_reset == config.min_backoff,
        config.max_retries is Some ==> Some(params.max_retries) == config.max_retries,
        config.max_retries is None ==> params.max_retries == u64::MAX,
        config.factor is Some && config.factor->0 < 0x7ff0_0000_0000_0000 ==> Some(params.factor)
            == config.factor,
        config.factor is Some && config.factor->0 >= 0x7ff0_0000_0000_0000 ==> params.factor == 0,
        config.factor is None ==> params.factor == 0x4000_0000_0000_0000,
{
}

/// The policy is of the kind that is configured, with configured parameters. There
/// is none only if nothing is configured.
pub proof fn configured_policy_is_made(
    config: RestartPolicyConfig,
    policy: Option<RestartPolicy>,
    params_config: RestartParamsConfig,
    params: RestartParams,
)
    requires
        call_ensures(RestartPolicyConfig::make_policy, (&config,), policy),
        call_ensures(RestartParamsConfig::make_params, (&params_config,), params),
    ensures
        policy is None <==> config.0 is None,
        config.0 == Some(WhenConfig::Never) ==> policy->0.mode is Never,
        config.0 == Some(WhenConfig::Always(params_config)) ==> policy->0.mode
            == RestartMode::Always(params),
        config.0 == Some(WhenConfig::OnFailure(params_config)) ==> policy->0.mode
            == RestartMode::OnFailure(params),
{
}

/// Nothing is configured by default.
pub proof fn no_policy_by_default(config: RestartPolicyConfig, policy: Option<RestartPolicy>)
    requires
        call_ensures(<RestartPolicyConfig as Default>::default, (), config),
        call_ensures(RestartPolicyConfig::make_policy, (&config,), policy),
    ensures
        policy is None,
{
}

} // verus!
