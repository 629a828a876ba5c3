use elfo::addr::Addr;
use elfo::envelope::{Envelope, MessageKind};
use elfo::errors::RequestError;
use elfo::message::{AnyMessage, MessageTypeId, MessageVTable};
use elfo::request_table::{RequestId, RequestTable, ResponseToken};
use elfo::tracing::TraceId;

fn num_id() -> MessageTypeId {
    MessageTypeId { raw: 1 }
}

fn trace_id() -> TraceId {
    TraceId::from_raw(5)
}

fn envelope(addr: Addr, num: u8) -> Envelope {
    let vtable = MessageVTable::new(num_id(), "Num".to_string(), "test".to_string(), true);
    let kind = MessageKind::Regular { sender: addr };
    Envelope::new(trace_id(), kind, AnyMessage::new(vtable, vec![num]))
}

fn num_of(envelope: &Envelope) -> u8 {
    envelope.message.downcast_ref(num_id()).unwrap()[0]
}

#[test]
fn one_request_one_response() {
    let addr = Addr::from_bits(1);
    let mut table = RequestTable::new(addr);

    for _ in 0..3 {
        let token = table.new_request(trace_id(), true);
        let request_id = token.request_id();
        assert!(table.poll(request_id).is_none());
        assert!(table.contains(request_id));

        assert!(table.resolve(token, Ok(envelope(addr, 42))));

        let mut data = table.poll(request_id).unwrap();

        assert_eq!(data.len(), 1);
        assert_eq!(num_of(&data.pop().unwrap().unwrap()), 42);
        assert_eq!(table.len(), 0);
    }
}

fn one_request_many_response(collect_all: bool) {
    let addr = Addr::from_bits(1);
    let mut table = RequestTable::new(addr);
    let token = table.new_request(trace_id(), collect_all);
    let request_id = token.request_id();

    let n = 5;
    let mut tokens = vec![];
    for _ in 1..n {
        let copy = token.duplicate(Some(&mut table));
        assert_eq!(copy.request_id(), request_id);
        tokens.push(copy);
    }

    table.resolve(token, Ok(envelope(addr, 0)));
    for (i, token) in tokens.into_iter().enumerate() {
        table.resolve(token, Ok(envelope(addr, i as u8 + 1)));
    }

    let data = table.poll(request_id).unwrap();

    let expected_len = if collect_all { n as usize } else { 1 };
    assert_eq!(data.len(), expected_len);

    for (i, response) in data.into_iter().enumerate() {
        assert_eq!(num_of(&response.unwrap()), i as u8);
    }
}

#[test]
fn one_request_many_response_all() {
    one_request_many_response(true);
}

#[test]
fn one_request_many_response_any() {
    one_request_many_response(false);
}

#[test]
fn late_resolve() {
    let addr = Addr::from_bits(1);
    let mut table = RequestTable::new(addr);

    let token = table.new_request(trace_id(), false);
    let token1 = token.duplicate(Some(&mut table));
    let request_id = token.request_id();

    assert!(table.resolve(token, Ok(envelope(addr, 42))));
    let data = table.poll(request_id).unwrap();
    assert_eq!(num_of(data[0].as_ref().unwrap()), 42);

    assert!(!table.resolve(token1, Ok(envelope(addr, 43))));
    assert_eq!(table.len(), 0);
}

#[test]
fn best_error_is_kept() {
    let addr = Addr::from_bits(1);
    let mut table = RequestTable::new(addr);

    let token = table.new_request(trace_id(), false);
    let request_id = token.request_id();
    let token1 = token.duplicate(Some(&mut table));
    let token2 = token.duplicate(Some(&mut table));

    assert!(!table.resolve(token, Err(RequestError::Failed)));
    assert!(!table.resolve(token1, Err(RequestError::Ignored)));
    assert!(table.resolve(token2, Err(RequestError::Failed)));

    let data = table.poll(request_id).unwrap();
    assert_eq!(data.len(), 1);
    assert!(matches!(data[0], Err(RequestError::Ignored)));
}

#[test]
fn all_errors_are_kept() {
    let addr = Addr::from_bits(1);
    let mut table = RequestTable::new(addr);

    let token = table.new_request(trace_id(), true);
    let request_id = token.request_id();
    let token1 = token.duplicate(Some(&mut table));

    assert!(!table.resolve(token1, Err(RequestError::Failed)));
    assert!(table.poll(request_id).is_none());
    assert!(table.resolve(token, Err(RequestError::Ignored)));

    let data = table.poll(request_id).unwrap();
    assert_eq!(data.len(), 2);
    assert!(matches!(data[0], Err(RequestError::Failed)));
    assert!(matches!(data[1], Err(RequestError::Ignored)));
}

#[test]
fn requests_can_be_canceled() {
    let mut table = RequestTable::new(Addr::from_bits(1));
    let first = table.new_request(trace_id(), true);
    let second = table.new_request(trace_id(), true);
    assert_ne!(first.request_id(), second.request_id());
    assert_eq!(table.len(), 2);

    table.cancel_request(first.request_id());
    assert_eq!(table.len(), 1);

    // The request is not found, so the token is forgotten.
    assert!(first.duplicate(Some(&mut table)).is_forgotten());
    assert!(!second.duplicate(Some(&mut table)).is_forgotten());
}

#[test]
fn dropped_tokens_resolve() {
    let mut table = RequestTable::new(Addr::from_bits(1));
    let token = table.new_request(trace_id(), true);
    assert_eq!(token.sender(), Addr::from_bits(1));
    assert_eq!(token.trace_id(), trace_id());
    assert_eq!(token.drop_error(), Some(RequestError::Failed));

    let token = token.into_received();
    assert_eq!(token.drop_error(), Some(RequestError::Ignored));
    assert_eq!(token.forget().drop_error(), None);
    assert!(ResponseToken::forgotten().is_forgotten());
}

#[test]
fn last_token_is_known() {
    let mut table = RequestTable::new(Addr::from_bits(1));
    let token = table.new_request(trace_id(), true).into_untyped();
    assert!(token.is_last(1));
    assert!(!token.is_last(2));
}

#[test]
fn request_ids_roundtrip() {
    let mut table = RequestTable::new(Addr::from_bits(1));
    let id = table.new_request(trace_id(), true).request_id();
    assert!(!id.is_null());
    assert_eq!(RequestId::from_ffi(id.to_ffi()), id);

    // The version is always odd.
    let raw = slotmap::KeyData::from_ffi(7).as_ffi();
    assert_eq!(RequestId::from_ffi(7).to_ffi(), raw);
}

#[test]
fn envelopes_are_duplicated_with_tokens() {
    let addr = Addr::from_bits(1);
    let mut table = RequestTable::new(addr);
    let token = table.new_request(trace_id(), true);
    let request_id = token.request_id();
    let vtable = MessageVTable::new(num_id(), "Num".to_string(), "test".to_string(), true);
    let request = Envelope::new(
        trace_id(),
        MessageKind::RequestAll(token),
        AnyMessage::new(vtable, vec![7]),
    );
    assert_eq!(request.sender(), addr);

    let copy = request.duplicate(Some(&mut table));
    assert_eq!(num_of(&copy), 7);

    for envelope_ in [request, copy] {
        match envelope_.kind {
            MessageKind::RequestAll(token) => {
                table.resolve(token, Ok(envelope(addr, 1)));
            }
            _ => panic!("unexpected kind"),
        }
    }
    assert_eq!(table.poll(request_id).unwrap().len(), 2);
}
