//! The decision logic of an actor system and of its dumper, verified.
//!
//! Everything that touches a runtime, a clock, a lock or a file lives outside
//! of this crate: callers hand in plain values and get plain values back.

pub mod actor;
pub mod addr;
pub mod config;
pub mod dumper;
pub mod dumping;
pub mod envelope;
pub mod errors;
pub mod logging;
pub mod message;
pub mod messages;
pub mod node;
pub mod object;
pub mod panic;
pub mod permissions;
pub mod poll;
pub mod remote;
pub mod request_table;
pub mod restarting;
pub mod routers;
pub mod runtime;
pub mod scope;
pub mod sealed;
pub mod signal;
pub mod source;
pub mod start;
pub mod stream;
pub mod stuck_detection;
pub mod subscription;
pub mod supervisor;
pub mod task;
pub mod telemetry;
pub mod time;
pub mod tls;
pub mod topology;
pub mod trace_id;
pub mod tracing;
