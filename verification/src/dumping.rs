//! Levels and meta of dumped messages.

use vstd::prelude::*;

verus! {

/// A level of a dumped message. The `Never` one is above any allowed level.
#[derive(Debug, Clone, Copy, PartialEq, Eq, Structural, Hash)]
pub enum Level {
    Normal,
    Verbose,
    Total,
    Never,
}

} // verus!
