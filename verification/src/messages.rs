//! Messages that are known by the system.

use vstd::prelude::*;

use crate::actor::{ActorMeta, ActorStatus};
use crate::config::AnyConfig;
use crate::message::AnyMessage;
use crate::signal::SignalKind;

verus! {

/// Checks that the actor is able to handle messages.
/// Routed to all actors in a group by default and handled implicitly by actors.
#[derive(Debug, Clone, Copy, Default)]
pub struct Ping;

#[derive(Debug)]
pub struct ValidateConfig<C> {
    pub config: AnyConfig<C>,
}

impl<C> ValidateConfig<C> {
    pub fn new(config: AnyConfig<C>) -> (this: ValidateConfig<C>)
        ensures
            this.config == config,
    {
        ValidateConfig { config }
    }
}

#[derive(Debug)]
pub struct UpdateConfig<C> {
    pub config: AnyConfig<C>,
}

impl<C> UpdateConfig<C> {
    pub fn new(config: AnyConfig<C>) -> (this: UpdateConfig<C>)
        ensures
            this.config == config,
    {
        UpdateConfig { config }
    }
}

#[derive(Debug, PartialEq, Eq)]
pub struct ConfigRejected {
    pub reason: String,
}

impl From<String> for ConfigRejected {
    fn from(reason: String) -> (this: ConfigRejected) {
        ConfigRejected { reason }
    }
}

impl vstd::std_specs::convert::FromSpecImpl<String> for ConfigRejected {
    open spec fn obeys_from_spec() -> bool {
        true
    }

    open spec fn from_spec(reason: String) -> ConfigRejected {
        ConfigRejected { reason }
    }
}

#[derive(Debug, Clone, Copy, PartialEq, Eq)]
pub struct StartEntrypoint {
    pub is_check_only: bool,
}

impl StartEntrypoint {
    pub fn new(is_check_only: bool) -> (this: StartEntrypoint)
        ensures
            this.is_check_only == is_check_only,
    {
        StartEntrypoint { is_check_only }
    }
}

#[derive(Debug)]
pub struct StartEntrypointRejected {
    pub errors: Vec<EntrypointError>,
}

impl StartEntrypointRejected {
    pub fn new(errors: Vec<EntrypointError>) -> (this: StartEntrypointRejected)
        ensures
            this.errors == errors,
    {
        StartEntrypointRejected { errors }
    }
}

#[derive(Debug)]
pub struct EntrypointError {
    pub group: String,
    pub reason: String,
}

impl EntrypointError {
    pub fn new(group: String, reason: String) -> (this: EntrypointError)
        ensures
            this.group == group,
            this.reason == reason,
    {
        EntrypointError { group, reason }
    }
}

#[derive(Debug, Clone, Copy)]
pub struct ConfigUpdated {}

#[derive(Debug)]
pub struct Terminate {
    pub closing: bool,
    pub reason: Option<TerminateReason>,
}

impl Terminate {
    /// The message closes a target's mailbox ignoring the termination policy.
    pub fn closing() -> (this: Terminate)
        ensures
            this.closing,
            this.reason is None,
    {
        Terminate { closing: true, reason: None }
    }

    /// Create terminate message with provided reason
    pub fn with_reason(reason: Option<TerminateReason>) -> (this: Terminate)
        ensures
            !this.closing,
            this.reason == reason,
    {
        Terminate { closing: false, reason }
    }
}

impl Default for Terminate {
    fn default() -> (this: Terminate)
        ensures
            !this.closing,
            this.reason is None,
    {
        Terminate { closing: false, reason: None }
    }
}

#[derive(Debug, PartialEq, Eq)]
pub enum TerminateReason {
    Unknown,
    Signal(SignalKind),
    Oom,
    Custom(String),
}

impl TerminateReason {
    pub fn custom(reason: String) -> (this: TerminateReason)
        ensures
            this == TerminateReason::Custom(reason),
    {
        TerminateReason::Custom(reason)
    }
}

impl Default for TerminateReason {
    fn default() -> (this: TerminateReason)
        ensures
            this is Unknown,
    {
        TerminateReason::Unknown
    }
}

// === Status ===

#[derive(Debug, Clone, Copy)]
pub struct SubscribeToActorStatuses {
    pub forcing: bool,
}

impl SubscribeToActorStatuses {
    /// Statuses will be sent even if a subscriber is already registered.
    pub fn forcing() -> (this: SubscribeToActorStatuses)
        ensures
            this.forcing,
    {
        SubscribeToActorStatuses { forcing: true }
    }
}

impl Default for SubscribeToActorStatuses {
    fn default() -> (this: SubscribeToActorStatuses)
        ensures
            !this.forcing,
    {
        SubscribeToActorStatuses { forcing: false }
    }
}

#[derive(Debug)]
pub struct ActorStatusReport {
    pub meta: ActorMeta,
    pub status: ActorStatus,
}

impl ActorStatusReport {
    pub fn new(meta: ActorMeta, status: ActorStatus) -> (this: ActorStatusReport)
        ensures
            this.meta == meta,
            this.status == status,
    {
        ActorStatusReport { meta, status }
    }
}

// === Classification ===

/// Messages that affect a whole group.
#[derive(Debug, Clone, Copy, PartialEq, Eq, Structural, Hash)]
pub enum SystemMessage {
    ValidateConfig,
    UpdateConfig,
    SubscribeToActorStatuses,
    Terminate,
    Ping,
}

/// The system message by its signature.
pub open spec fn spec_classify(message: AnyMessage) -> Option<SystemMessage> {
    let name = message.vtable.name@;
    if message.vtable.protocol@ != "elfo-core"@ {
        None
    } else if name == "ValidateConfig"@ {
        Some(SystemMessage::ValidateConfig)
    } else if name == "UpdateConfig"@ {
        Some(SystemMessage::UpdateConfig)
    } else if name == "SubscribeToActorStatuses"@ {
        Some(SystemMessage::SubscribeToActorStatuses)
    } else if name == "Terminate"@ {
        Some(SystemMessage::Terminate)
    } else if name == "Ping"@ {
        Some(SystemMessage::Ping)
    } else {
        None
    }
}

/// Recognizes system messages.
pub fn classify(message: &AnyMessage) -> (res: Option<SystemMessage>)
    ensures
        res == spec_classify(*message),
{
    let name = &message.vtable.name;
    if message.vtable.protocol != "elfo-core".to_owned() {
        None
    } else if *name == "ValidateConfig".to_owned() {
        Some(SystemMessage::ValidateConfig)
    } else if *name == "UpdateConfig".to_owned() {
        Some(SystemMessage::UpdateConfig)
    } else if *name == "SubscribeToActorStatuses".to_owned() {
        Some(SystemMessage::SubscribeToActorStatuses)
    } else if *name == "Terminate".to_owned() {
        Some(SystemMessage::Terminate)
    } else if *name == "Ping".to_owned() {
        Some(SystemMessage::Ping)
    } else {
        None
    }
}

// === Laws ===

/// A message is recognized by both its protocol and its name. Messages of other
/// protocols are never system ones.
pub proof fn system_messages_are_recognized(message: AnyMessage, res: Option<SystemMessage>)
    requires
        call_ensures(classify, (&message,), res),
    ensures
        ({
            let name = message.vtable.name@;
            let is_known = message.vtable.protocol@ == "elfo-core"@;
            &&& res == Some(SystemMessage::ValidateConfig) <==> is_known && name
                == "ValidateConfig"@
            &&& res == Some(SystemMessage::UpdateConfig) <==> is_known && name == "UpdateConfig"@
            &&& res == Some(SystemMessage::SubscribeToActorStatuses) <==> is_known && name
                == "SubscribeToActorStatuses"@
            &&& res == Some(SystemMessage::Terminate) <==> is_known && name == "Terminate"@
            &&& res == Some(SystemMessage::Ping) <==> is_known && name == "Ping"@
        }),
{
    reveal_strlit("ValidateConfig");
    reveal_strlit("UpdateConfig");
    reveal_strlit("SubscribeToActorStatuses");
    reveal_strlit("Terminate");
    reveal_strlit("Ping");
    assert("ValidateConfig"@.len() == 14);
    assert("UpdateConfig"@.len() == 12);
    assert("SubscribeToActorStatuses"@.len() == 24);
    assert("Terminate"@.len() == 9);
    assert("Ping"@.len() == 4);
}

/// An actor is asked to terminate without closing its mailbox, unless it's asked for
/// explicitly. The reason is kept.
pub proof fn mailbox_is_closed_only_if_asked(
    reason: Option<TerminateReason>,
    text: String,
    a: Terminate,
    b: Terminate,
    c: Terminate,
    d: TerminateReason,
    e: TerminateReason,
)
    requires
        call_ensures(Terminate::closing, (), a),
        call_ensures(Terminate::with_reason, (reason,), b),
        call_ensures(<Terminate as Default>::default, (), c),
        call_ensures(TerminateReason::custom, (text,), d),
        call_ensures(<TerminateReason as Default>::default, (), e),
    ensures
        a.closing && !b.closing && !c.closing,
        a.reason is None && b.reason == reason && c.reason is None,
        d == TerminateReason::Custom(text) && e is Unknown,
{
}

/// Statuses are sent again only if it's asked for explicitly.
pub proof fn statuses_are_forced_only_if_asked(
    a: SubscribeToActorStatuses,
    b: SubscribeToActorStatuses,
)
    requires
        call_ensures(SubscribeToActorStatuses::forcing, (), a),
        call_ensures(<SubscribeToActorStatuses as Default>::default, (), b),
    ensures
        a.forcing && !b.forcing,
{
}

/// Messages hold what they are made of.
pub proof fn messages_keep_contents<C>(
    config: AnyConfig<C>,
    validate: ValidateConfig<C>,
    update: UpdateConfig<C>,
    is_check_only: bool,
    start: StartEntrypoint,
    errors: Vec<EntrypointError>,
    rejected: StartEntrypointRejected,
    group: String,
    reason: String,
    error: EntrypointError,
    meta: ActorMeta,
    status: ActorStatus,
    report: ActorStatusReport,
)
    requires
        call_ensures(ValidateConfig::<C>::new, (config,), validate),
        call_ensures(UpdateConfig::<C>::new, (config,), update),
        call_ensures(StartEntrypoint::new, (is_check_only,), start),
        call_ensures(StartEntrypointRejected::new, (errors,), rejected),
        call_ensures(EntrypointError::new, (group, reason), error),
        call_ensures(ActorStatusReport::new, (meta, status), report),
    ensures
        validate.config == config && update.config == config,
        start.is_check_only == is_check_only,
        rejected.errors == errors,
        error.group == group && error.reason == reason,
        report.meta == meta && report.status == status,
{
}

/// The reason of a rejection is kept.
pub proof fn reason_is_kept(reason: String, rejected: ConfigRejected)
    requires
        call_ensures(<ConfigRejected as From<String>>::from, (reason,), rejected),
    ensures
        rejected.reason == reason,
{
}

} // verus!
