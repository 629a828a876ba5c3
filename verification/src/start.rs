//! Starting and terminating of a node.

use vstd::prelude::*;

use crate::actor::ActorMeta;
use crate::addr::Addr;
use crate::config::SystemConfig;
use crate::errors::RequestError;
use crate::logging;
use crate::messages::ConfigRejected;
use crate::telemetry::config::PerActorKey;
use crate::time::Nanos;
use crate::topology::LocalActorGroup;

verus! {

/// Why a node cannot be started.
#[derive(Debug, PartialEq, Eq)]
pub enum StartError {
    InvalidConfig,
    Other(String),
}

/// What an entrypoint answers on the initial config.
pub type ConfigResponse = Result<Result<(), ConfigRejected>, RequestError>;

/// Whether an entrypoint hasn't got the initial config.
pub open spec fn is_undelivered(response: ConfigResponse) -> bool {
    response == Err::<Result<(), ConfigRejected>, RequestError>(RequestError::Failed)
}

/// Whether an entrypoint has rejected the initial config.
pub open spec fn is_rejected(response: ConfigResponse) -> bool {
    response matches Ok(answer) && answer is Err
}

pub open spec fn any_undelivered(responses: Seq<ConfigResponse>) -> bool {
    exists|i: int| 0 <= i < responses.len() && is_undelivered(#[trigger] responses[i])
}

pub open spec fn any_rejected(responses: Seq<ConfigResponse>) -> bool {
    exists|i: int| 0 <= i < responses.len() && is_rejected(#[trigger] responses[i])
}

/// Concludes once all entrypoints have answered on the initial config. Those
/// who ignore it are fine.
pub fn start_entrypoints(responses: &Vec<ConfigResponse>) -> (res: Result<(), StartError>)
    ensures
        if any_undelivered(responses@) {
            res matches Err(StartError::Other(reason)) && reason@
                == "initial messages cannot be delivered"@
        } else if any_rejected(responses@) {
            res == Err::<(), StartError>(StartError::InvalidConfig)
        } else {
            res is Ok
        },
{
    let mut has_rejected: bool = false;
    let mut i: usize = 0;
    while i < responses.len()
        invariant
            i <= responses.len(),
            forall|k: int| 0 <= k < i ==> !is_undelivered(#[trigger] responses[k]),
            has_rejected == exists|k: int| 0 <= k < i && is_rejected(#[trigger] responses[k]),
        decreases responses.len() - i,
    {
        match &responses[i] {
            Err(RequestError::Failed) => {
                assert(is_undelivered(responses[i as int]));
                return Err(
                    StartError::Other("initial messages cannot be delivered".to_owned()),
                );
            },
            Err(RequestError::Ignored) => {},
            Ok(Ok(_)) => {},
            Ok(Err(_)) => {
                assert(is_rejected(responses[i as int]));
                has_rejected = true;
            },
        }
        i += 1;
    }

    if has_rejected {
        Err(StartError::InvalidConfig)
    } else {
        Ok(())
    }
}

/// Concludes once all entrypoints have answered on pings.
pub fn wait_entrypoints(responses: &Vec<Result<(), RequestError>>) -> (res: Result<(), StartError>)
    ensures
        if forall|i: int| 0 <= i < responses.len() ==> (#[trigger] responses[i]) is Ok {
            res is Ok
        } else {
            res matches Err(StartError::Other(reason)) && reason@ == "entrypoint cannot start"@
        },
{
    let mut i: usize = 0;
    while i < responses.len()
        invariant
            i <= responses.len(),
            forall|k: int| 0 <= k < i ==> (#[trigger] responses[k]) is Ok,
        decreases responses.len() - i,
    {
        if responses[i].is_err() {
            return Err(StartError::Other("entrypoint cannot start".to_owned()));
        }
        i += 1;
    }
    Ok(())
}

/// The identity of the actor that starts others.
pub fn init_meta() -> (meta: ActorMeta)
    ensures
        meta.group@ == "init"@,
        meta.key@ == "_"@,
{
    // Just like `Singleton`.
    ActorMeta { group: "init".to_owned(), key: "_".to_owned() }
}

/// The config of the actor that starts others.
pub fn init_config() -> (config: SystemConfig)
    ensures
        config.wf(),
        config.max_log_level == Some(logging::Level::Info),
        !config.telemetry.per_actor_group,
        config.telemetry.per_actor_key == PerActorKey::Bool(false),
        !config.dumping_disabled,
        config.restart_policy.0 is None,
{
    let mut config = SystemConfig::default();
    config.max_log_level = Some(logging::Level::Info);
    config.telemetry.per_actor_group = false;
    config
}

// === Termination ===

/// `30s`.
pub const SEND_CLOSING_TERMINATE_AFTER: u128 = 30_000_000_000;

/// `45s`.
pub const STOP_GROUP_TERMINATION_AFTER: u128 = 45_000_000_000;

/// How a system is being terminated.
#[derive(Debug, Clone, Copy, PartialEq, Eq, Structural)]
pub enum Termination {
    /// Nobody wants it.
    NotStarted,
    /// Groups are being terminated.
    InProgress,
    /// There is nothing to wait for.
    Done,
}

/// What can happen while a system is being terminated.
#[derive(Debug, Clone, Copy, PartialEq, Eq, Structural)]
pub enum TerminationEvent {
    /// Somebody asks to terminate, e.g. `Ctrl-C` has been pressed.
    Requested,
    /// All groups are terminated.
    GroupsTerminated,
    /// A message that isn't related to termination.
    Unrelated,
}

impl Termination {
    /// The next state. If it's asked to terminate again, the system terminates
    /// immediately.
    pub open spec fn spec_next(self, event: TerminationEvent) -> Termination {
        match (self, event) {
            (Termination::NotStarted, TerminationEvent::Requested) => Termination::InProgress,
            (Termination::InProgress, TerminationEvent::Requested) => Termination::Done,
            (Termination::InProgress, TerminationEvent::GroupsTerminated) => Termination::Done,
            _ => self,
        }
    }

    pub fn next(self, event: TerminationEvent) -> (next: Termination)
        ensures
            next == self.spec_next(event),
    {
        match (self, event) {
            (Termination::NotStarted, TerminationEvent::Requested) => Termination::InProgress,
            (Termination::InProgress, TerminationEvent::Requested) => Termination::Done,
            (Termination::InProgress, TerminationEvent::GroupsTerminated) => Termination::Done,
            _ => self,
        }
    }
}

/// Whether it's a group of the system.
pub open spec fn is_system(name: Seq<char>) -> bool {
    "system."@.is_prefix_of(name)
}

/// Whether a group is terminated together with users' groups.
pub fn is_selected(name: &str, user: bool) -> (res: bool)
    ensures
        res == (user != is_system(name@)),
{
    proof {
        reveal_strlit("system.");
    }
    let starts_with = name.unicode_len() >= 7 && name.substring_char(0, 7).to_owned()
        == "system.".to_owned();
    proof {
        if name@.len() >= 7 {
            assert(name@.subrange(0, 7) =~= name@.take(7));
        }
        if is_system(name@) {
            assert(name@.take(7) =~= "system."@);
        }
    }
    user != starts_with
}

/// Groups that are terminated together, in order of declaration.
pub open spec fn selected(groups: Seq<LocalActorGroup>, user: bool) -> Seq<Addr>
    decreases groups.len(),
{
    if groups.len() == 0 {
        Seq::empty()
    } else {
        let rest = selected(groups.drop_last(), user);
        if user != is_system(groups.last().name@) {
            rest.push(groups.last().addr)
        } else {
            rest
        }
    }
}

/// Groups that are terminated together. Groups of users are terminated first.
pub fn terminate_groups(groups: &Vec<LocalActorGroup>, user: bool) -> (addrs: Vec<Addr>)
    ensures
        addrs@ == selected(groups@, user),
{
    let mut addrs: Vec<Addr> = Vec::new();
    let mut i: usize = 0;
    assert(groups@.take(0).len() == 0);
    while i < groups.len()
        invariant
            i <= groups.len(),
            addrs@ == selected(groups@.take(i as int), user),
        decreases groups.len() - i,
    {
        let ghost next = groups@.take(i + 1);
        assert(next.drop_last() =~= groups@.take(i as int));
        assert(next.last() == groups@[i as int]);
        if is_selected(groups[i].name.as_str(), user) {
            addrs.push(groups[i].addr);
        }
        i += 1;
    }
    assert(groups@.take(i as int) =~= groups@);
    addrs
}

/// A step of terminating a group.
#[derive(Debug, Clone, Copy, PartialEq, Eq, Structural)]
pub enum TerminateStep {
    /// Send `Terminate` politely, no longer than the timeout.
    SendPolite { timeout: Nanos },
    /// Give actors time to finish.
    WaitPolite { delay: Nanos },
    /// Send `Terminate` that closes mailboxes, no longer than the timeout.
    SendClosing { timeout: Nanos },
    /// Give actors time to finish.
    WaitClosing { delay: Nanos },
    /// The group cannot be terminated.
    GiveUp,
}

/// How much time is left, `None` if the limit is exceeded.
pub open spec fn time_left(limit: Nanos, elapsed: Nanos) -> Option<Nanos> {
    if elapsed <= limit {
        Some((limit - elapsed) as u128)
    } else {
        None
    }
}

impl TerminateStep {
    pub fn first() -> (step: TerminateStep)
        ensures
            step == (TerminateStep::SendPolite { timeout: SEND_CLOSING_TERMINATE_AFTER }),
    {
        TerminateStep::SendPolite { timeout: SEND_CLOSING_TERMINATE_AFTER }
    }

    /// The next step. `is_delivered` is whether sending has been finished in
    /// time, `elapsed` is how much time has passed since the first step.
    pub open spec fn spec_next(self, is_delivered: bool, elapsed: Nanos) -> TerminateStep {
        let closing = TerminateStep::SendClosing { timeout: STOP_GROUP_TERMINATION_AFTER };
        match self {
            TerminateStep::SendPolite { .. } => match time_left(
                SEND_CLOSING_TERMINATE_AFTER,
                elapsed,
            ) {
                Some(delay) if is_delivered => TerminateStep::WaitPolite { delay },
                _ => closing,
            },
            TerminateStep::WaitPolite { .. } => closing,
            TerminateStep::SendClosing { .. } => match time_left(
                STOP_GROUP_TERMINATION_AFTER,
                elapsed,
            ) {
                Some(delay) if is_delivered => TerminateStep::WaitClosing { delay },
                _ => TerminateStep::GiveUp,
            },
            TerminateStep::WaitClosing { .. } => TerminateStep::GiveUp,
            TerminateStep::GiveUp => TerminateStep::GiveUp,
        }
    }

    pub fn next(self, is_delivered: bool, elapsed: Nanos) -> (next: TerminateStep)
        ensures
            next == self.spec_next(is_delivered, elapsed),
    {
        match self {
            TerminateStep::SendPolite { .. } => {
                if is_delivered && elapsed <= SEND_CLOSING_TERMINATE_AFTER {
                    TerminateStep::WaitPolite { delay: SEND_CLOSING_TERMINATE_AFTER - elapsed }
                } else {
                    TerminateStep::SendClosing { timeout: STOP_GROUP_TERMINATION_AFTER }
                }
            },
            TerminateStep::WaitPolite { .. } => TerminateStep::SendClosing {
                timeout: STOP_GROUP_TERMINATION_AFTER,
            },
            TerminateStep::SendClosing { .. } => {
                if is_delivered && elapsed <= STOP_GROUP_TERMINATION_AFTER {
                    TerminateStep::WaitClosing { delay: STOP_GROUP_TERMINATION_AFTER - elapsed }
                } else {
                    TerminateStep::GiveUp
                }
            },
            TerminateStep::WaitClosing { .. } => TerminateStep::GiveUp,
            TerminateStep::GiveUp => TerminateStep::GiveUp,
        }
    }
}

// === Laws ===

/// Every group is terminated either as a user's one or as a system's one.
pub proof fn every_group_is_selected_once(groups: Seq<LocalActorGroup>)
    ensures
        selected(groups, true).len() + selected(groups, false).len() == groups.len(),
    decreases groups.len(),
{
    if groups.len() > 0 {
        every_group_is_selected_once(groups.drop_last());
    }
}

/// If `Terminate` is delivered in time, actors have time to finish until the
/// next step: the delay lasts exactly until it.
pub proof fn actors_have_time_to_finish(timeout: Nanos, elapsed: Nanos)
    ensures
        elapsed <= SEND_CLOSING_TERMINATE_AFTER ==> (TerminateStep::SendPolite {
            timeout,
        }).spec_next(true, elapsed) == (TerminateStep::WaitPolite {
            delay: (SEND_CLOSING_TERMINATE_AFTER - elapsed) as u128,
        }),
        elapsed <= STOP_GROUP_TERMINATION_AFTER ==> (TerminateStep::SendClosing {
            timeout,
        }).spec_next(true, elapsed) == (TerminateStep::WaitClosing {
            delay: (STOP_GROUP_TERMINATION_AFTER - elapsed) as u128,
        }),
{
}

/// A node is started iff the initial config reaches everyone and nobody rejects it. Those
/// who ignore it are fine.
pub proof fn rejected_config_prevents_start(
    responses: Vec<ConfigResponse>,
    res: Result<(), StartError>,
    i: int,
)
    requires
        call_ensures(start_entrypoints, (&responses,), res),
    ensures
        (forall|k: int|
            0 <= k < responses@.len() ==> {
                ||| (#[trigger] responses@[k]) == Err::<Result<(), ConfigRejected>, RequestError>(
                    RequestError::Ignored,
                )
                ||| responses@[k] is Ok && responses@[k]->Ok_0 is Ok
            }) ==> res is Ok,
        0 <= i < responses@.len() && responses@[i] == Err::<
            Result<(), ConfigRejected>,
            RequestError,
        >(RequestError::Failed) ==> (res matches Err(StartError::Other(reason)) && reason@
            == "initial messages cannot be delivered"@),
        0 <= i < responses@.len() && responses@[i] is Ok && responses@[i]->Ok_0 is Err && (forall|
            k: int,
        |
            0 <= k < responses@.len() ==> (#[trigger] responses@[k]) != Err::<
                Result<(), ConfigRejected>,
                RequestError,
            >(RequestError::Failed)) ==> res == Err::<(), StartError>(StartError::InvalidConfig),
{
    if 0 <= i < responses@.len() {
        assert(is_undelivered(responses@[i]) || !is_undelivered(responses@[i]));
        assert(is_rejected(responses@[i]) || !is_rejected(responses@[i]));
    }
}

proof fn lemma_waited(
    args: (&Vec<Result<(), RequestError>>,),
    res: Result<(), StartError>,
    i: int,
)
    requires
        call_ensures(wait_entrypoints, args, res),
        0 <= i < args.0@.len(),
        res is Ok,
    ensures
        args.0@[i] is Ok,
{
    assert(args.0[i] is Ok);
}

/// A node is started only if every entrypoint answers.
pub proof fn all_entrypoints_must_answer(
    responses: Vec<Result<(), RequestError>>,
    res: Result<(), StartError>,
    i: int,
)
    requires
        call_ensures(wait_entrypoints, (&responses,), res),
    ensures
        (forall|k: int| 0 <= k < responses@.len() ==> (#[trigger] responses@[k]) is Ok) ==> res
            is Ok,
        0 <= i < responses@.len() && responses@[i] is Err ==> (res matches Err(
            StartError::Other(reason),
        ) && reason@ == "entrypoint cannot start"@),
{
    if 0 <= i < responses@.len() && res is Ok {
        lemma_waited((&responses,), res, i);
    }
}

/// The starter has no metrics of its own, logs important events only and is named as
/// a single actor.
pub proof fn starter_is_single_actor(meta: ActorMeta, config: SystemConfig)
    requires
        call_ensures(init_meta, (), meta),
        call_ensures(init_config, (), config),
    ensures
        meta.group@ == "init"@ && meta.key@ == "_"@,
        config.max_log_level == Some(logging::Level::Info),
        !config.telemetry.per_actor_group,
        config.telemetry.per_actor_key == PerActorKey::Bool(false),
        !config.dumping_disabled,
        config.restart_policy.0 is None,
{
}

/// Termination goes on until all groups are terminated, or until it's asked for again.
/// Nothing else affects it.
pub proof fn second_request_terminates_immediately(
    event: TerminationEvent,
    a: Termination,
    b: Termination,
    c: Termination,
)
    requires
        call_ensures(Termination::next, (Termination::NotStarted, event), a),
        call_ensures(Termination::next, (Termination::InProgress, event), b),
        call_ensures(Termination::next, (Termination::Done, event), c),
    ensures
        event is Requested ==> a is InProgress && b is Done,
        event is GroupsTerminated ==> a is NotStarted && b is Done,
        event is Unrelated ==> a is NotStarted && b is InProgress,
        c is Done,
{
}

/// Only groups with names that start with `system.` belong to the system, all other ones
/// belong to users.
pub proof fn groups_belong_to_users_or_system(name: &str, user: bool, system: bool)
    requires
        call_ensures(is_selected, (name, true), user),
        call_ensures(is_selected, (name, false), system),
    ensures
        user == !system,
        system <==> name@.len() >= 7 && name@.take(7) == seq!['s', 'y', 's', 't', 'e', 'm', '.'],
{
    reveal_strlit("system.");
    assert("system."@ =~= seq!['s', 'y', 's', 't', 'e', 'm', '.']);
    if name@.len() >= 7 {
        assert(name@.take(7) =~= name@.subrange(0, 7));
        if name@.take(7) == "system."@ {
            assert("system."@.is_prefix_of(name@));
        }
        if "system."@.is_prefix_of(name@) {
            assert(name@.take(7) =~= "system."@);
        }
    }
}

/// Groups are terminated in the order in which they are declared, those of users and
/// those of the system apart.
pub proof fn groups_are_terminated_in_order(
    groups: Vec<LocalActorGroup>,
    more: Vec<LocalActorGroup>,
    group: LocalActorGroup,
    name: &str,
    user: bool,
    selects: bool,
    a: Vec<Addr>,
    b: Vec<Addr>,
)
    requires
        more@ == groups@.push(group),
        name@ == group.name@,
        call_ensures(is_selected, (name, user), selects),
        call_ensures(terminate_groups, (&groups, user), a),
        call_ensures(terminate_groups, (&more, user), b),
    ensures
        groups@.len() == 0 ==> a@.len() == 0,
        selects ==> b@ == a@.push(group.addr),
        !selects ==> b@ == a@,
{
    assert(more@.drop_last() =~= groups@);
    assert(more@.last() == group);
}

/// Actors are asked politely first, then their mailboxes are closed, and after that
/// nobody is waited for. There are 30 and 45 seconds since the beginning to finish.
pub proof fn termination_is_escalated(
    first: TerminateStep,
    timeout: Nanos,
    is_delivered: bool,
    elapsed: Nanos,
    a: TerminateStep,
    b: TerminateStep,
    c: TerminateStep,
    d: TerminateStep,
    e: TerminateStep,
)
    requires
        call_ensures(TerminateStep::first, (), first),
        call_ensures(
            TerminateStep::next,
            (TerminateStep::SendPolite { timeout }, is_delivered, elapsed),
            a,
        ),
        call_ensures(
            TerminateStep::next,
            (TerminateStep::WaitPolite { delay: timeout }, is_delivered, elapsed),
            b,
        ),
        call_ensures(
            TerminateStep::next,
            (TerminateStep::SendClosing { timeout }, is_delivered, elapsed),
            c,
        ),
        call_ensures(
            TerminateStep::next,
            (TerminateStep::WaitClosing { delay: timeout }, is_delivered, elapsed),
            d,
        ),
        call_ensures(TerminateStep::next, (TerminateStep::GiveUp, is_delivered, elapsed), e),
    ensures
        first == (TerminateStep::SendPolite { timeout: 30_000_000_000 }),
        is_delivered && elapsed <= 30_000_000_000 ==> (a matches TerminateStep::WaitPolite { delay }
            && delay + elapsed == 30_000_000_000),
        !is_delivered || elapsed > 30_000_000_000 ==> a == (TerminateStep::SendClosing {
            timeout: 45_000_000_000,
        }),
        b == (TerminateStep::SendClosing { timeout: 45_000_000_000 }),
        is_delivered && elapsed <= 45_000_000_000 ==> (c matches TerminateStep::WaitClosing {
            delay,
        } && delay + elapsed == 45_000_000_000),
        !is_delivered || elapsed > 45_000_000_000 ==> c is GiveUp,
        d is GiveUp && e is GiveUp,
{
}

} // verus!
