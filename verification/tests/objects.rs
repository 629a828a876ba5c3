use elfo::addr::Addr;
use elfo::envelope::{Envelope, MessageKind};
use elfo::errors::{RequestError, SendError, TrySendError};
use elfo::message::{AnyMessage, MessageTypeId, MessageVTable};
use elfo::object::{
    Attempt, GroupVisitor, Object, ObjectKind, RemoteSendResult, SendFut, SendGroupVisitor,
    TrySendGroupVisitor, UnboundedSendGroupVisitor,
};
use elfo::request_table::{RequestId, RequestTable, ResponseToken};
use elfo::tracing::TraceId;

fn envelope(num: u8) -> Envelope {
    let id = MessageTypeId { raw: 1 };
    let vtable = MessageVTable::new(id, "Num".to_string(), "test".to_string(), true);
    Envelope::new(
        TraceId::from_raw(1),
        MessageKind::Regular {
            sender: Addr::null(),
        },
        AnyMessage::new(vtable, vec![num]),
    )
}

fn num(envelope: &Envelope) -> u8 {
    envelope.message.data[0]
}

fn addr(bits: u64) -> Addr {
    Addr::from_bits(bits)
}

#[test]
fn sending_waits_only_if_full() {
    let actor = Object::new(addr(1), ObjectKind::Actor);
    assert_eq!(actor.addr(), addr(1));
    assert!(actor.is_actor());

    assert!(matches!(actor.send(Attempt::Direct(Ok(())), true), SendFut::Ready(Ok(()))));
    let res = actor.send(Attempt::Direct(Err(TrySendError::Closed(envelope(3)))), true);
    assert!(matches!(res, SendFut::Ready(Err(SendError(e))) if num(&e) == 3));
    let res = actor.send(Attempt::Direct(Err(TrySendError::Full(envelope(4)))), true);
    assert!(matches!(res, SendFut::WaitActor(e) if num(&e) == 4));
    // The actor is already dropped.
    let res = actor.send(Attempt::Direct(Err(TrySendError::Full(envelope(5)))), false);
    assert!(matches!(res, SendFut::Ready(Err(SendError(e))) if num(&e) == 5));

    let remote = Object::new(addr(2), ObjectKind::Remote);
    assert!(remote.is_remote());
    let res = remote.send(Attempt::Direct(Err(TrySendError::Full(envelope(6)))), true);
    assert!(matches!(res, SendFut::WaitRemote(e) if num(&e) == 6));

    let group = Object::new(addr(3), ObjectKind::Group);
    let mut visitor = SendGroupVisitor::new();
    visitor.done();
    let res = group.send(Attempt::Visited(visitor), true);
    assert!(matches!(res, SendFut::WaitGroup(visitor) if visitor.has_ok));
}

#[test]
fn remote_results_are_handled() {
    let res = Object::on_remote_send(RemoteSendResult::Sent);
    assert!(matches!(res, SendFut::Ready(Ok(()))));
    let res = Object::on_remote_send(RemoteSendResult::Failed(SendError(envelope(1))));
    assert!(matches!(res, SendFut::Ready(Err(_))));
    let res = Object::on_remote_send(RemoteSendResult::Wait(envelope(2)));
    assert!(matches!(res, SendFut::WaitRemote(_)));
}

#[test]
fn requester_is_woken_up_once_done() {
    let mut table = RequestTable::new(addr(1));
    let actor = Object::new(addr(1), ObjectKind::Actor);
    let token = table.new_request(TraceId::from_raw(1), true);
    let copy = token.duplicate(Some(&mut table));

    assert!(table.is_resolvable(&token, &Ok(envelope(1))));
    let res = actor.respond(Some(&mut table), token, Ok(envelope(1)));
    assert!(matches!(res, Ok(false)));
    let res = actor.respond(Some(&mut table), copy, Ok(envelope(2)));
    assert!(matches!(res, Ok(true)));
}

fn visited_token(owner: Addr) -> (ResponseToken, RequestId) {
    let mut table = RequestTable::new(owner);
    let token = table.new_request(TraceId::from_raw(1), true);
    let request_id = token.request_id();
    let mut request = envelope(7);
    request.kind = MessageKind::RequestAll(token);

    let mut visitor = TrySendGroupVisitor::new();
    match visitor.visit(&request, None).kind {
        MessageKind::RequestAll(token) => (token, request_id),
        _ => unreachable!(),
    }
}

#[test]
fn visited_actors_answer_remote_requesters() {
    let remote = addr(5 << 48 | 1);
    assert!(!remote.is_local());
    let (token, request_id) = visited_token(remote);
    assert_eq!(token.sender(), remote);
    assert_eq!(token.request_id(), request_id);

    // A local requester without a table doesn't exist anymore.
    let (token, _) = visited_token(addr(1));
    assert!(token.is_forgotten());
}

#[test]
fn objects_respond() {
    let mut table = RequestTable::new(addr(1));
    let token = table.new_request(TraceId::from_raw(1), true);
    let request_id = token.request_id();
    let actor = Object::new(addr(1), ObjectKind::Actor);
    let res = actor.respond(Some(&mut table), token, Ok(envelope(9)));
    assert!(matches!(res, Ok(true)));
    assert_eq!(table.poll(request_id).unwrap().len(), 1);

    let remote = Object::new(addr(2), ObjectKind::Remote);
    let token = table.new_request(TraceId::from_raw(1), true);
    let res = remote.respond(None, token, Err(RequestError::Failed));
    assert!(matches!(res, Err((_, Err(RequestError::Failed)))));
}

#[test]
fn group_sending_waits_for_full_actors() {
    let mut visitor = SendGroupVisitor::new();
    let first = visitor.visit(&envelope(1), None);
    visitor.try_send(addr(1), Err(TrySendError::Full(first)));
    let last = visitor.visit_last(envelope(1));
    visitor.try_send(addr(2), Err(TrySendError::Full(last)));

    let full = visitor.take_full();
    assert_eq!(full.len(), 2);
    assert_eq!(full[0].0, addr(1));
    assert_eq!(full[1].0, addr(2));
    assert_eq!(num(&full[1].1), 1);

    let results = vec![Err(SendError(envelope(1))), Ok(())];
    assert!(visitor.finish(results).is_ok());
}

#[test]
fn group_sending_fails_if_nobody_gets() {
    let mut visitor = SendGroupVisitor::new();
    visitor.empty(envelope(4));
    let res = visitor.finish(vec![]);
    assert!(matches!(res, Err(SendError(e)) if num(&e) == 4));

    let mut visitor = SendGroupVisitor::new();
    let last = visitor.visit_last(envelope(5));
    visitor.try_send(addr(1), Err(TrySendError::Closed(last)));
    let res = visitor.finish(vec![]);
    assert!(matches!(res, Err(SendError(e)) if num(&e) == 5));

    let mut visitor = SendGroupVisitor::new();
    visitor.done();
    assert!(visitor.finish(vec![]).is_ok());
}

#[test]
fn group_try_sending_prefers_success() {
    let group = Object::new(addr(1), ObjectKind::Group);

    let mut visitor = TrySendGroupVisitor::new();
    let first = visitor.visit(&envelope(1), None);
    visitor.try_send(Err(TrySendError::Full(first)));
    let second = visitor.visit(&envelope(1), None);
    visitor.try_send(Ok(()));
    assert_eq!(num(&second), 1);
    assert!(group.try_send(Attempt::Visited(visitor)).is_ok());

    // Being full is better than being closed.
    let mut visitor = TrySendGroupVisitor::new();
    visitor.try_send(Err(TrySendError::Full(envelope(1))));
    visitor.try_send(Err(TrySendError::Closed(envelope(1))));
    let err = group.try_send(Attempt::Visited(visitor)).unwrap_err();
    assert!(err.is_full());

    let mut visitor = TrySendGroupVisitor::new();
    visitor.try_send(Err(TrySendError::Closed(envelope(8))));
    let err = group.try_send(Attempt::Visited(visitor)).unwrap_err();
    assert!(!err.is_full());
    assert_eq!(num(&err.into_inner()), 8);

    let actor = Object::new(addr(1), ObjectKind::Actor);
    assert!(actor.try_send(Attempt::Direct(Ok(()))).is_ok());
}

#[test]
fn group_unbounded_sending_works() {
    let group = Object::new(addr(1), ObjectKind::Group);
    let mut visitor = UnboundedSendGroupVisitor::new();
    visitor.try_send(Err(SendError(envelope(1))));
    visitor.try_send(Ok(()));
    assert!(group.unbounded_send(Attempt::Visited(visitor)).is_ok());

    let mut visitor = UnboundedSendGroupVisitor::new();
    visitor.try_send(Err(SendError(envelope(2))));
    let res = group.unbounded_send(Attempt::Visited(visitor));
    assert!(matches!(res, Err(SendError(e)) if num(&e) == 2));
}
