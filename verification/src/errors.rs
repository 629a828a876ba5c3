//! Errors of sending and requesting.

use vstd::prelude::*;

verus! {

/// A message cannot be delivered, it's returned back.
#[derive(Debug, PartialEq, Eq)]
pub struct SendError<T>(pub T);

/// A message cannot be delivered right now, it's returned back.
#[derive(Debug, PartialEq, Eq)]
pub enum TrySendError<T> {
    /// The mailbox is full.
    Full(T),
    /// The mailbox is closed.
    Closed(T),
}

impl<T> TrySendError<T> {
    /// Takes the message back.
    pub fn into_inner(self) -> (inner: T)
        ensures
            inner == self.inner(),
    {
        match self {
            TrySendError::Full(inner) => inner,
            TrySendError::Closed(inner) => inner,
        }
    }

    /// The message that isn't delivered.
    pub open spec fn inner(self) -> T {
        match self {
            TrySendError::Full(inner) => inner,
            TrySendError::Closed(inner) => inner,
        }
    }

    pub fn is_full(&self) -> (res: bool)
        ensures
            res == (self is Full),
    {
        match self {
            TrySendError::Full(_) => true,
            TrySendError::Closed(_) => false,
        }
    }
}

/// Why a request has no response.
#[derive(Debug, Clone, Copy, PartialEq, Eq, Structural, Hash)]
pub enum RequestError {
    /// The recipient hasn't received the request, e.g. it's closed.
    Failed,
    /// The recipient has received the request, but hasn't responded.
    Ignored,
}

// === Laws ===

/// The message that isn't delivered is never lost, whatever the reason is.
pub proof fn undelivered_is_returned<T>(message: T, full: T, closed: T, a: bool, b: bool)
    requires
        call_ensures(TrySendError::into_inner, (TrySendError::Full(message),), full),
        call_ensures(TrySendError::into_inner, (TrySendError::Closed(message),), closed),
        call_ensures(TrySendError::is_full, (&TrySendError::Full(message),), a),
        call_ensures(TrySendError::is_full, (&TrySendError::Closed(message),), b),
    ensures
        full == message && closed == message,
        a && !b,
{
}

} // verus!
