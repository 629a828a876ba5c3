//! Levels of logged events.

use vstd::prelude::*;

verus! {

/// A level of a logged event, from the most verbose to the most important.
#[derive(Debug, Clone, Copy, PartialEq, Eq, Structural, Hash)]
pub enum Level {
    Trace,
    Debug,
    Info,
    Warn,
    Error,
}

} // verus!
