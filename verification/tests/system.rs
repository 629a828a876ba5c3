use elfo::actor::ActorMeta;
use elfo::addr::{Addr, NodeNo};
use elfo::envelope::Envelope;
use elfo::errors::RequestError;
use elfo::message::{AnyMessage, MessageTypeId, MessageVTable};
use elfo::messages::ConfigRejected;
use elfo::poll::Poll;
use elfo::remote::SendNotify;
use elfo::runtime::RuntimeManager;
use elfo::scope::Scope;
use elfo::signal::{Family, SignalInner, SignalKind, SignalSource};
use elfo::source::{AfterPoll, SourceHandle, StreamStatus, StreamWithWaker};
use elfo::start::{
    init_config, init_meta, start_entrypoints, terminate_groups, wait_entrypoints, StartError,
    TerminateStep, Termination, TerminationEvent, SEND_CLOSING_TERMINATE_AFTER,
    STOP_GROUP_TERMINATION_AFTER,
};
use elfo::stream::{Stream, StreamItem};
use elfo::stuck_detection::StuckDetector;
use elfo::task::Builder;
use elfo::topology::{ConnectionTo, DeclareError, Outcome, Topology, MAX_LOCALS};
use elfo::tracing::TraceId;

const SEC: u128 = 1_000_000_000;

fn addr(bits: u64) -> Addr {
    Addr::from_bits(bits)
}

fn trace_id(raw: u64) -> TraceId {
    TraceId::from_raw(raw)
}

fn message(num: u8) -> AnyMessage {
    let id = MessageTypeId { raw: 1 };
    let vtable = MessageVTable::new(id, "Num".to_string(), "test".to_string(), true);
    AnyMessage::new(vtable, vec![num])
}

fn meta(key: &str) -> ActorMeta {
    ActorMeta {
        group: "group".to_string(),
        key: key.to_string(),
    }
}

// === Topology ===

#[test]
fn groups_are_declared() {
    let mut topology = Topology::empty();
    assert_eq!(topology.check_local("foo"), Ok(1));
    let foo = topology.local("foo".to_string(), addr(1));
    assert_eq!(foo.group_no, 1);
    assert_eq!(topology.check_local("foo"), Err(DeclareError::NameIsTaken));
    let bar = topology.local("bar".to_string(), addr(2));
    assert_eq!(bar.addr(), addr(2));

    assert!(topology.entrypoints().is_empty());
    assert!(topology.entrypoint(&bar));
    assert_eq!(topology.entrypoints(), vec![addr(2)]);

    topology.route_to(&foo, &bar);
    let connection = &topology.connections()[0];
    assert_eq!(connection.from, addr(1));
    assert!(matches!(connection.to, ConnectionTo::Local(to) if to == addr(2)));

    let mut addrs = vec![];
    bar.accept(false, &mut addrs);
    assert!(addrs.is_empty());
    bar.accept(true, &mut addrs);
    foo.accept_all(&mut addrs);
    assert_eq!(addrs, vec![addr(2), addr(1)]);
}

#[test]
fn number_of_groups_is_limited() {
    let mut topology = Topology::empty();
    for i in 0..MAX_LOCALS {
        let name = i.to_string();
        assert_eq!(topology.check_local(&name), Ok(i as u8 + 1));
        topology.local(name, addr(i as u64 + 1));
    }
    assert_eq!(
        topology.check_local("one more"),
        Err(DeclareError::TooManyGroups)
    );
    assert_eq!(topology.locals().len(), 254);
}

#[test]
fn remote_nodes_get_messages() {
    let node = |bits| NodeNo::from_bits(bits).unwrap();
    let mut topology = Topology::empty();
    let foo = topology.local("foo".to_string(), addr(1));
    let remote = topology.remote("bar".to_string());
    topology.route_to(&foo, &remote);
    let to = topology.connections.pop().unwrap().to;
    assert_eq!(to.into_remote(), Some("bar".to_string()));
    assert_eq!(ConnectionTo::Local(addr(1)).into_remote(), None);

    let pos = topology.find_remote("bar").unwrap();
    assert!(topology.find_remote("baz").is_none());
    let group = &mut topology.remotes[pos];
    assert!(group.register_remote(foo.group_no, node(3), addr(30)));
    assert!(group.register_remote(foo.group_no, node(4), addr(40)));
    assert!(!group.register_remote(9, node(4), addr(40)));

    let nodes = &group.nodes[group.find(foo.group_no).unwrap()];
    assert_eq!(nodes.targets(&Outcome::Unicast(node(4))), vec![addr(40)]);
    assert!(nodes.targets(&Outcome::Unicast(node(5))).is_empty());
    assert_eq!(
        nodes.targets(&Outcome::Multicast(vec![node(4), node(5), node(3)])),
        vec![addr(40), addr(30)]
    );
    assert_eq!(
        nodes.targets(&Outcome::Broadcast),
        vec![addr(30), addr(40)]
    );
    assert!(nodes.targets(&Outcome::Discard).is_empty());
}

// === Start ===

#[test]
fn entrypoints_must_accept_config() {
    let rejected = || ConfigRejected {
        reason: "oops".to_string(),
    };
    assert_eq!(start_entrypoints(&vec![]), Ok(()));
    assert_eq!(
        start_entrypoints(&vec![Ok(Ok(())), Err(RequestError::Ignored)]),
        Ok(())
    );
    assert_eq!(
        start_entrypoints(&vec![Ok(Err(rejected())), Ok(Ok(()))]),
        Err(StartError::InvalidConfig)
    );
    assert_eq!(
        start_entrypoints(&vec![Ok(Err(rejected())), Err(RequestError::Failed)]),
        Err(StartError::Other(
            "initial messages cannot be delivered".to_string()
        ))
    );
}

#[test]
fn entrypoints_must_answer() {
    assert_eq!(wait_entrypoints(&vec![Ok(()), Ok(())]), Ok(()));
    assert_eq!(
        wait_entrypoints(&vec![Ok(()), Err(RequestError::Ignored)]),
        Err(StartError::Other("entrypoint cannot start".to_string()))
    );
}

#[test]
fn starter_is_configured() {
    let meta = init_meta();
    assert_eq!(meta.group, "init");
    assert_eq!(meta.key, "_");
    let config = init_config();
    assert_eq!(config.max_log_level, Some(elfo::logging::Level::Info));
    assert!(!config.telemetry.per_actor_group);
}

#[test]
fn users_are_terminated_first() {
    let mut topology = Topology::empty();
    topology.local("system.loggers".to_string(), addr(1));
    topology.local("traders".to_string(), addr(2));
    topology.local("system".to_string(), addr(3));
    topology.local("system.dumpers".to_string(), addr(4));

    assert_eq!(
        terminate_groups(topology.locals(), true),
        vec![addr(2), addr(3)]
    );
    assert_eq!(
        terminate_groups(topology.locals(), false),
        vec![addr(1), addr(4)]
    );
}

#[test]
fn second_request_terminates_immediately() {
    let state = Termination::NotStarted.next(TerminationEvent::Unrelated);
    assert_eq!(state, Termination::NotStarted);
    let state = state.next(TerminationEvent::Requested);
    assert_eq!(state, Termination::InProgress);
    assert_eq!(state.next(TerminationEvent::Unrelated), state);
    assert_eq!(state.next(TerminationEvent::Requested), Termination::Done);
    assert_eq!(
        state.next(TerminationEvent::GroupsTerminated),
        Termination::Done
    );
}

#[test]
fn groups_are_terminated_step_by_step() {
    let step = TerminateStep::first();
    assert_eq!(
        step,
        TerminateStep::SendPolite {
            timeout: SEND_CLOSING_TERMINATE_AFTER
        }
    );
    let wait = step.next(true, 10 * SEC);
    assert_eq!(wait, TerminateStep::WaitPolite { delay: 20 * SEC });
    let closing = TerminateStep::SendClosing {
        timeout: STOP_GROUP_TERMINATION_AFTER,
    };
    assert_eq!(wait.next(true, 30 * SEC), closing);
    assert_eq!(step.next(false, 30 * SEC), closing);
    assert_eq!(step.next(true, 31 * SEC), closing);

    assert_eq!(
        closing.next(true, 31 * SEC),
        TerminateStep::WaitClosing { delay: 14 * SEC }
    );
    assert_eq!(closing.next(false, 31 * SEC), TerminateStep::GiveUp);
    assert_eq!(
        TerminateStep::WaitClosing { delay: 1 }.next(true, 45 * SEC),
        TerminateStep::GiveUp
    );
}

// === Sources ===

fn emitted(res: Poll<Option<Envelope>>) -> Envelope {
    match res {
        Poll::Ready(Some(envelope)) => envelope,
        _ => panic!("nothing is emitted"),
    }
}

#[test]
fn streams_are_traced() {
    let item = |num| Poll::Ready(Some(StreamItem::Message(message(num))));

    // Every message starts a new trace.
    let mut stream = Stream::from_futures03(trace_id(1), trace_id(2));
    assert_eq!(stream.source.trace_id, trace_id(2));
    let envelope = emitted(stream.source.poll_recv(item(5), trace_id(2), trace_id(3)));
    assert_eq!(envelope.trace_id, trace_id(2));
    assert_eq!(envelope.message.data, vec![5]);
    assert_eq!(stream.source.trace_id, trace_id(3));

    // The current trace is preserved.
    for mut stream in [Stream::once(trace_id(1)), Stream::generate(trace_id(1))] {
        let fallible = Poll::Ready(Some(StreamItem::Fallible(Err(message(6)))));
        let envelope = emitted(stream.source.poll_recv(fallible, trace_id(1), trace_id(3)));
        assert_eq!(envelope.trace_id, trace_id(1));
        assert_eq!(envelope.message.data, vec![6]);
        assert_eq!(stream.source.trace_id, trace_id(1));
    }

    // The trace can be changed by the stream.
    let mut stream = Stream::once(trace_id(1));
    let res = stream
        .source
        .poll_recv(Poll::Pending, trace_id(8), trace_id(3));
    assert!(matches!(res, Poll::Pending));
    assert_eq!(stream.source.trace_id, trace_id(8));
    let res = stream
        .source
        .poll_recv(Poll::Ready(None), trace_id(9), trace_id(3));
    assert!(matches!(res, Poll::Ready(None)));
    assert_eq!(stream.source.trace_id, trace_id(8));
}

#[test]
fn signals_of_other_systems_are_disabled() {
    assert_eq!(
        SignalInner::new(SignalKind::WindowsCtrlC, Family::Unix),
        SignalInner::Disabled
    );
    assert_eq!(
        SignalInner::new(SignalKind::UnixHangup, Family::Unix),
        SignalInner::Unix(SignalKind::UnixHangup)
    );

    let mut source = SignalSource::new(SignalKind::UnixHangup, Family::Unix, true, message(1));
    let envelope = emitted(source.poll_recv(Poll::Ready(Some(())), trace_id(4)));
    assert_eq!(envelope.trace_id, trace_id(4));
    assert_eq!(envelope.message.data, vec![1]);
    source.set_message(message(2));
    let envelope = emitted(source.poll_recv(Poll::Ready(Some(())), trace_id(4)));
    assert_eq!(envelope.message.data, vec![2]);
    let res = source.poll_recv(Poll::Pending, trace_id(4));
    assert!(matches!(res, Poll::Pending));

    let failed = SignalSource::new(SignalKind::UnixHangup, Family::Unix, false, message(1));
    let res = failed.poll_recv(Poll::Ready(Some(())), trace_id(4));
    assert!(matches!(res, Poll::Ready(None)));
}

#[test]
fn sources_are_terminated() {
    let mut stream = StreamWithWaker::new(7, false);
    assert_eq!(stream.lock(), Some(&7));
    assert_eq!(
        stream.after_poll::<u8>(&Poll::Pending),
        AfterPoll::UpdateWaker
    );
    let res = stream.poll_next(Some(Poll::Ready(Some(1))));
    assert!(matches!(res, Poll::Ready(Some(1))));
    assert_eq!(stream.status(), StreamStatus::Stream);
    stream.poll_next::<u8>(Some(Poll::Ready(None)));
    assert!(stream.is_terminated());
    assert!(stream.lock().is_none());
    let res = stream.poll_next::<u8>(None);
    assert!(matches!(res, Poll::Ready(None)));

    // A oneshot source is terminated after the first message.
    let mut stream = StreamWithWaker::new(7, true);
    stream.poll_next(Some(Poll::Ready(Some(1))));
    assert!(stream.is_terminated());

    let mut stream = StreamWithWaker::new(7, false);
    assert_eq!(stream.drop_by(false), None);
    assert_eq!(stream.drop_by(true), Some(7));
    assert_eq!(stream.drop_by(true), None);
}

// === Others ===

#[test]
fn stuck_actors_are_detected() {
    let mut detector = StuckDetector::new();
    let a = detector.add_slot(1);
    let b = detector.add_slot(2);

    detector.enter(a, 1, Some(meta("a")));
    detector.enter(b, 2, Some(meta("b")));
    assert!(detector.check().is_empty());

    // The second one makes progress.
    detector.exit(b);
    detector.enter(b, 2, Some(meta("b")));
    let stuck = detector.check();
    assert_eq!(stuck.len(), 1);
    assert_eq!(stuck[0].meta().key, "a");
    assert_eq!(stuck[0].thread(), 1);

    // It doesn't matter that slots are reused.
    detector.enter(b, 3, Some(meta("b")));
    detector.exit(a);
    assert!(detector.check().is_empty());
    assert_eq!(detector.slots[b].epoch, 1);
}

#[test]
fn first_suitable_runtime_is_used() {
    let mut manager: RuntimeManager<fn(&ActorMeta) -> bool, u8> = RuntimeManager::new();
    assert!(manager.get(&meta("a")).is_none());
    manager.add(|meta| meta.key == "a", 1);
    manager.add(|meta| meta.group == "group", 2);
    assert_eq!(manager.get(&meta("a")), Some(&1));
    assert_eq!(manager.get(&meta("b")), Some(&2));
}

#[test]
fn all_waiters_are_notified() {
    let mut notify = SendNotify::default();
    notify.notified();
    notify.notified();
    assert_eq!(notify.notify(), 2);
    assert_eq!(notify.notify(), 0);
}

#[test]
fn tasks_are_spawned_in_scope() {
    let scope = Scope::test(trace_id(4), addr(1), meta("a"));
    let builder = Builder::current(Some(&scope));
    assert_eq!(builder.scope.trace_id(), trace_id(4));
    assert_eq!(builder.scope.meta().key, "a");
    assert_eq!(Builder::new(scope).scope.actor(), addr(1));
}
