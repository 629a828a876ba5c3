//! A source that emits a message once a signal is received.

use vstd::prelude::*;

use crate::envelope::Envelope;
use crate::message::AnyMessage;
use crate::poll::Poll;
use crate::source::{emit, is_emitted};
use crate::tracing::TraceId;

verus! {

/// A kind of signal to listen to.
///
/// * `Unix*` variants are available only on UNIX systems and produce nothing
///   on other systems.
/// * `Windows*` variants are available only on Windows and produce nothing
///   on other systems.
#[derive(Debug, Clone, Copy, PartialEq, Eq, Structural, Hash)]
pub enum SignalKind {
    /// The "ctrl-c" notification.
    WindowsCtrlC,
    /// Any valid OS signal.
    UnixRaw(i32),
    /// SIGALRM
    UnixAlarm,
    /// SIGCHLD
    UnixChild,
    /// SIGHUP
    UnixHangup,
    /// SIGINT
    UnixInterrupt,
    /// SIGIO
    UnixIo,
    /// SIGPIPE
    UnixPipe,
    /// SIGQUIT
    UnixQuit,
    /// SIGTERM
    UnixTerminate,
    /// SIGUSR1
    UnixUser1,
    /// SIGUSR2
    UnixUser2,
    /// SIGWINCH
    UnixWindowChange,
}

/// What a source listens to.
#[derive(Debug, Clone, Copy, PartialEq, Eq, Structural, Hash)]
pub enum SignalInner {
    Disabled,
    WindowsCtrlC,
    Unix(SignalKind),
}

/// A family of operating systems.
#[derive(Debug, Clone, Copy, PartialEq, Eq, Structural, Hash)]
pub enum Family {
    Unix,
    Windows,
}

impl SignalInner {
    /// What is listened to on systems of the family.
    pub open spec fn listening(kind: SignalKind, family: Family) -> SignalInner {
        match family {
            Family::Unix => if kind is WindowsCtrlC {
                SignalInner::Disabled
            } else {
                SignalInner::Unix(kind)
            },
            Family::Windows => if kind is WindowsCtrlC {
                SignalInner::WindowsCtrlC
            } else {
                SignalInner::Disabled
            },
        }
    }

    /// What is listened to on systems of the family. Signals of other families
    /// are disabled.
    pub fn new(kind: SignalKind, family: Family) -> (inner: SignalInner)
        ensures
            inner == SignalInner::listening(kind, family),
    {
        match family {
            Family::Unix => match kind {
                SignalKind::WindowsCtrlC => SignalInner::Disabled,
                _ => SignalInner::Unix(kind),
            },
            Family::Windows => match kind {
                SignalKind::WindowsCtrlC => SignalInner::WindowsCtrlC,
                _ => SignalInner::Disabled,
            },
        }
    }

    /// `received` is what the listener returns, disabled signals never come.
    pub fn poll_recv(&self, received: Poll<Option<()>>) -> (res: Poll<Option<()>>)
        ensures
            res == (if *self is Disabled {
                Poll::Ready(None)
            } else {
                received
            }),
    {
        match self {
            SignalInner::Disabled => Poll::Ready(None),
            _ => received,
        }
    }
}

/// Clones the message on every received signal.
#[derive(Debug)]
pub struct SignalSource {
    pub message: AnyMessage,
    pub inner: SignalInner,
}

impl SignalSource {
    /// Creates a source. If it's failed to listen to the signal, it's disabled.
    pub fn new(kind: SignalKind, family: Family, is_listening: bool, message: AnyMessage) -> (this:
        SignalSource)
        ensures
            this.message == message,
            this.inner == (if is_listening {
                SignalInner::listening(kind, family)
            } else {
                SignalInner::Disabled
            }),
    {
        let inner = if is_listening {
            SignalInner::new(kind, family)
        } else {
            SignalInner::Disabled
        };
        SignalSource { message, inner }
    }

    /// Replaces a stored message with the provided one.
    pub fn set_message(&mut self, message: AnyMessage)
        ensures
            final(self).message == message,
            final(self).inner == old(self).inner,
    {
        self.message = message;
    }

    /// Emits the message if a signal is received. Every message starts a new
    /// trace.
    pub fn poll_recv(&self, received: Poll<Option<()>>, new_trace_id: TraceId) -> (res: Poll<
        Option<Envelope>,
    >)
        ensures
            self.inner is Disabled ==> res == Poll::Ready(None::<Envelope>),
            !(self.inner is Disabled) ==> match received {
                Poll::Ready(Some(_)) => res matches Poll::Ready(Some(envelope)) && is_emitted(
                    envelope,
                    self.message,
                    new_trace_id,
                ),
                Poll::Ready(None) => res == Poll::Ready(None::<Envelope>),
                Poll::Pending => res is Pending,
            },
    {
        match self.inner.poll_recv(received) {
            Poll::Ready(Some(_)) => Poll::Ready(Some(emit(&self.message, new_trace_id))),
            Poll::Ready(None) => Poll::Ready(None),
            Poll::Pending => Poll::Pending,
        }
    }
}

// === Laws ===

/// Signals come only on systems that have them.
pub proof fn foreign_signals_never_come(
    kind: SignalKind,
    family: Family,
    inner: SignalInner,
    received: Poll<Option<()>>,
    res: Poll<Option<()>>,
)
    requires
        call_ensures(SignalInner::new, (kind, family), inner),
        call_ensures(SignalInner::poll_recv, (&inner, received), res),
    ensures
        (kind is WindowsCtrlC <==> family is Windows) ==> res == received,
        !(kind is WindowsCtrlC <==> family is Windows) ==> res == Poll::Ready(None::<()>),
        family is Unix && !(kind is WindowsCtrlC) ==> inner == SignalInner::Unix(kind),
{
}

/// The last message that is set is emitted on every signal, in a new trace. A source
/// that doesn't listen emits nothing and ends.
pub proof fn message_is_emitted_on_signal(
    kind: SignalKind,
    family: Family,
    is_listening: bool,
    first: AnyMessage,
    message: AnyMessage,
    source: &mut SignalSource,
    received: Poll<Option<()>>,
    trace_id: TraceId,
    res: Poll<Option<Envelope>>,
)
    requires
        call_ensures(SignalSource::new, (kind, family, is_listening, first), *old(source)),
        call_ensures(SignalSource::set_message, (source, message), ()),
        call_ensures(SignalSource::poll_recv, (final(source), received, trace_id), res),
    ensures
        old(source).message == first,
        ({
            let is_enabled = is_listening && (kind is WindowsCtrlC <==> family is Windows);
            &&& !is_enabled ==> res == Poll::Ready(None::<Envelope>)
            &&& is_enabled ==> match received {
                Poll::Ready(Some(_)) => {
                    &&& res is Ready && res->Ready_0 is Some
                    &&& (res->Ready_0)->0.trace_id == trace_id
                    &&& (res->Ready_0)->0.message.vtable == message.vtable
                    &&& (res->Ready_0)->0.message.data@ == message.data@
                    &&& (res->Ready_0)->0.kind is Regular
                },
                Poll::Ready(None) => res == Poll::Ready(None::<Envelope>),
                Poll::Pending => res is Pending,
            }
        }),
{
}

} // verus!
