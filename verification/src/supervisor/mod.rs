//! Management of actors inside a group.

pub mod backoff;
pub mod error_chain;
pub mod group;
pub mod measure_poll;
pub mod objects;

pub use self::group::Supervisor;
