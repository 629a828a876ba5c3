//! Trace ids: their layout, generation and validation.
//!
//! A trace id is a 63-bit number made of, from the highest bit to the lowest,
//! 25 bits of time in seconds, 16 bits of a node number and 22 bits of bottom
//! (12 bits of a chunk number and 10 bits of a counter).

pub mod generator;
pub mod trace_id;
pub mod validator;

pub use self::trace_id::TraceId;

pub use self::validator::TraceIdValidator;
