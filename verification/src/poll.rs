//! Results of polling.

use vstd::prelude::*;

verus! {

/// Whether something that is waited for has happened.
#[derive(Debug, PartialEq, Eq)]
pub enum Poll<T> {
    Ready(T),
    Pending,
}

} // verus!
