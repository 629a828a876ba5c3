//! Configs of groups.

use std::sync::Arc;

use vstd::prelude::*;

use crate::logging;
use crate::restarting::RestartPolicyConfig;
use crate::telemetry::config::{PerActorKey, TelemetryConfig};

verus! {

/// The part of a config that is common to all groups.
#[derive(Debug)]
pub struct SystemConfig {
    /// The most verbose level that is logged, `None` if logging is disabled.
    pub max_log_level: Option<logging::Level>,
    /// Whether dumping is disabled.
    pub dumping_disabled: bool,
    pub telemetry: TelemetryConfig,
    pub restart_policy: RestartPolicyConfig,
}

impl SystemConfig {
    pub open spec fn wf(&self) -> bool {
        self.restart_policy.wf()
    }
}

impl Default for SystemConfig {
    fn default() -> (this: SystemConfig)
        ensures
            this.wf(),
            this.max_log_level == Some(logging::Level::Info),
            !this.dumping_disabled,
            this.telemetry.per_actor_group,
            this.telemetry.per_actor_key == PerActorKey::Bool(false),
            this.restart_policy.0 is None,
    {
        SystemConfig {
            max_log_level: Some(logging::Level::Info),
            dumping_disabled: false,
            telemetry: TelemetryConfig::default(),
            restart_policy: RestartPolicyConfig::default(),
        }
    }
}

/// A decoded config of a group.
#[derive(Debug)]
pub struct AnyConfig<C> {
    pub system: SystemConfig,
    pub user: Arc<C>,
}

// === Laws ===

/// By default, everything but the most verbose events is logged, everything is
/// dumped, and nothing is said about restarts.
pub proof fn default_config_is_sane(config: SystemConfig)
    requires
        call_ensures(<SystemConfig as Default>::default, (), config),
    ensures
        config.max_log_level == Some(logging::Level::Info),
        !config.dumping_disabled,
        config.telemetry.per_actor_group,
        config.telemetry.per_actor_key == PerActorKey::Bool(false),
        config.restart_policy.0 is None,
{
}

} // verus!
