//! Restarting of actors.

pub mod backoff;
pub mod config;
pub mod restart_policy;

pub use self::backoff::RestartBackoff;
pub use self::config::{RestartParamsConfig, RestartPolicyConfig, WhenConfig};
pub use self::restart_policy::{RestartMode, RestartParams, RestartPolicy};
