use elfo::message::any::{form, Form, LimitReached, TupleError};
use elfo::message::limited_write::LimitedWrite;
use elfo::message::lookup::VTablesMap;
use elfo::message::protocol::extract_protocol_name;
use elfo::message::{AnyMessage, MessageTypeId, MessageVTable};
use elfo::messages::{
    classify, ConfigRejected, SubscribeToActorStatuses, SystemMessage, Terminate, TerminateReason,
};
use elfo::scope::{serde_mode, with_serde_mode, SerdeMode};

fn vtable(id: u64, protocol: &str, name: &str) -> MessageVTable {
    MessageVTable::new(
        MessageTypeId { raw: id },
        name.to_string(),
        protocol.to_string(),
        true,
    )
}

fn check_basic_ops(vtable: MessageVTable, message: Vec<u8>) {
    let id = vtable.id;
    let unused = MessageTypeId { raw: 1000 };
    let message_box = AnyMessage::new(vtable, message.clone());

    // Clone
    let message_box_2 = message_box.duplicate();
    assert_eq!(message_box_2.downcast(id).unwrap(), message);
    let message_box_3 = message_box.as_ref().inner.duplicate();
    assert_eq!(message_box_3.downcast_ref(id).unwrap(), &message);

    // AnyMessage -> AnyMessage
    assert_eq!(message_box_3.downcast(MessageTypeId::any()).unwrap(), message);

    // Downcast
    assert!(message_box.is(id));
    assert!(message_box.as_ref().inner.is(id));
    assert!(!message_box.is(unused));
    assert!(!message_box.as_ref().inner.is(unused));
    assert_eq!(message_box.downcast_ref(id), Some(&message));
    assert_eq!(message_box.as_ref().downcast_ref(id), Some(&message));
    assert_eq!(message_box.downcast_ref(unused), None);
    assert_eq!(message_box.as_ref().downcast_ref(unused), None);

    let message_box = message_box.downcast(unused).unwrap_err();
    assert_eq!(message_box.downcast(id).unwrap(), message);
}

#[test]
fn basic_ops_miri() {
    check_basic_ops(vtable(1, "elfo-core", "P0"), vec![]);
    check_basic_ops(vtable(2, "elfo-core", "P1"), vec![42]);
    check_basic_ops(
        vtable(3, "elfo-core", "P8"),
        424242u64.to_le_bytes().to_vec(),
    );
    check_basic_ops(
        vtable(4, "elfo-core", "P16"),
        424242424242u128.to_le_bytes().to_vec(),
    );
}

#[test]
fn form_depends_on_mode() {
    for mode in [SerdeMode::Normal, SerdeMode::Network] {
        assert_eq!(form(mode), Form::Tuple);
    }
    assert_eq!(form(SerdeMode::Dumping), Form::Struct);
}

#[test]
fn serde_mode_is_restored() {
    let mut current = SerdeMode::Normal;
    let inner = with_serde_mode(&mut current, SerdeMode::Dumping, |mode| {
        format!("{:?}", serde_mode(mode))
    });
    assert_eq!(inner, "Dumping");
    assert_eq!(serde_mode(&current), SerdeMode::Normal);

    // Nested calls restore what has been set outside of them.
    let modes = with_serde_mode(&mut current, SerdeMode::Dumping, |outer| {
        let mut outer = *outer;
        let inner = with_serde_mode(&mut outer, SerdeMode::Network, |mode| serde_mode(mode));
        (inner, serde_mode(&outer))
    });
    assert_eq!(modes, (SerdeMode::Network, SerdeMode::Dumping));
    assert_eq!(serde_mode(&current), SerdeMode::Normal);
}

#[test]
fn serde_roundtrip() {
    let vtables = VTablesMap::new(vec![
        vtable(1, "elfo-core", "Another"),
        vtable(2, "elfo-core", "MyCoolMessage"),
    ]);
    let payload = br#"{"field_a":123,"field_b":"Hello world","field_c":0.5}"#.to_vec();
    let any_msg = AnyMessage::new(vtable(2, "elfo-core", "MyCoolMessage"), payload.clone());

    let decoded: Result<Vec<u8>, ()> = Ok(any_msg.data.clone());
    let restored = AnyMessage::from_tuple(
        &vtables,
        Some(any_msg.protocol()),
        Some(any_msg.name()),
        Some(decoded),
    )
    .unwrap();

    assert_eq!(restored.type_id(), any_msg.type_id());
    assert_eq!(restored.downcast(any_msg.type_id()).unwrap(), payload);
}

#[test]
fn invalid_tuples_are_rejected() {
    let vtables = VTablesMap::new(vec![vtable(1, "proto", "Name")]);
    let check = |protocol, name, payload: Option<Result<Vec<u8>, u8>>| {
        AnyMessage::from_tuple(&vtables, protocol, name, payload).unwrap_err()
    };

    let err = check(None, None, None);
    assert!(matches!(err, TupleError::InvalidLength(0)));
    let err = check(Some("proto"), None, None);
    assert!(matches!(err, TupleError::InvalidLength(1)));
    let err = check(Some("proto"), Some("Another"), None);
    assert!(matches!(err, TupleError::InvalidLength(2)));
    let err = check(Some("proto"), Some("Another"), Some(Ok(vec![])));
    assert!(matches!(err, TupleError::UnknownMessage));
    let err = check(Some("proto"), Some("Name"), Some(Err(7)));
    assert!(matches!(err, TupleError::Payload(7)));
}

#[test]
fn messages_are_read() {
    let vtables = VTablesMap::new(vec![vtable(1, "proto", "Name")]);

    let res: Result<_, u8> = AnyMessage::read_msgpack(&vtables, "proto", "Name", Ok(vec![1, 2]));
    let message = res.unwrap().unwrap();
    assert_eq!(message.name(), "Name");
    assert_eq!(message.data, vec![1, 2]);

    let res: Result<_, u8> = AnyMessage::read_msgpack(&vtables, "proto", "Name", Err(5));
    assert!(matches!(res, Err(5)));
    let res: Result<_, u8> = AnyMessage::read_msgpack(&vtables, "proto", "Unknown", Err(5));
    assert!(matches!(res, Ok(None)));
}

#[test]
fn messages_are_written_within_limit() {
    let message = AnyMessage::new(vtable(1, "proto", "Name"), vec![1, 2, 3]);
    let whole = vec![vec![1, 2, 3]];
    let mut out = vec![9];
    assert_eq!(message.write_msgpack(&whole, &mut out, 2), Err(LimitReached));
    assert_eq!(out, vec![9]);
    assert_eq!(message.write_msgpack(&whole, &mut out, 3), Ok(()));
    assert_eq!(out, vec![9, 1, 2, 3]);

    // What is written before the limit stays.
    let pieces = vec![vec![1], vec![], vec![2, 3]];
    let mut out = vec![9];
    assert_eq!(message.write_msgpack(&pieces, &mut out, 2), Err(LimitReached));
    assert_eq!(out, vec![9, 1]);
    assert_eq!(message.write_msgpack(&pieces, &mut out, 3), Ok(()));
    assert_eq!(out, vec![9, 1, 1, 2, 3]);
}

#[test]
fn limited_write_works() {
    let mut writer = LimitedWrite::new(5);
    let mut out = vec![];
    assert_eq!(writer.write(&mut out, &[1, 2, 3]), 3);
    assert_eq!(writer.write(&mut out, &[4, 5, 6]), 0);
    // Nothing can be written after exceeding.
    assert_eq!(writer.write(&mut out, &[7]), 0);
    assert_eq!(writer.write(&mut out, &[]), 0);
    assert_eq!(out, vec![1, 2, 3]);
    assert_eq!(writer.remaining, 0);
}

#[test]
fn vtables_are_found() {
    let vtables = VTablesMap::new(vec![
        vtable(1, "proto", "A"),
        vtable(2, "proto", "B"),
        vtable(3, "another", "A"),
    ]);
    assert_eq!(vtables.len(), 3);
    assert_eq!(vtables.get("proto", "B").unwrap().id.raw, 2);
    assert_eq!(vtables.get("another", "A").unwrap().id.raw, 3);
    assert!(vtables.get("another", "B").is_none());
    assert_eq!(vtables.check_uniqueness(), Ok(()));

    let vtables = VTablesMap::new(vec![
        vtable(1, "proto", "A"),
        vtable(2, "proto", "B"),
        vtable(3, "proto", "A"),
    ]);
    assert_eq!(
        vtables.check_uniqueness(),
        Err(vec![("proto".to_string(), "A".to_string())])
    );
    assert_eq!(vtables.get("proto", "A").unwrap().id.raw, 3);
    // The hidden one isn't counted.
    assert_eq!(vtables.len(), 2);
    assert_eq!(VTablesMap::new(vec![]).len(), 0);
}

#[test]
fn labels_describe_messages() {
    let labels = vtable(1, "proto", "A").labels();
    assert_eq!(labels[0], ("message", "A".to_string()));
    assert_eq!(labels[1], ("protocol", "proto".to_string()));
}

#[test]
fn protocol_can_be_overridden() {
    assert_eq!(
        extract_protocol_name(Some("override"), Some("package")),
        Some("override")
    );
    assert_eq!(extract_protocol_name(None, Some("package")), Some("package"));
    assert_eq!(extract_protocol_name(None, None), None);
}

#[test]
fn system_messages_are_known() {
    let classify_by = |protocol, name| classify(&AnyMessage::new(vtable(1, protocol, name), vec![]));

    assert_eq!(
        classify_by("elfo-core", "Terminate"),
        Some(SystemMessage::Terminate)
    );
    assert_eq!(classify_by("elfo-core", "Ping"), Some(SystemMessage::Ping));
    assert_eq!(
        classify_by("elfo-core", "ValidateConfig"),
        Some(SystemMessage::ValidateConfig)
    );
    assert_eq!(
        classify_by("elfo-core", "UpdateConfig"),
        Some(SystemMessage::UpdateConfig)
    );
    assert_eq!(
        classify_by("elfo-core", "SubscribeToActorStatuses"),
        Some(SystemMessage::SubscribeToActorStatuses)
    );
    assert_eq!(classify_by("elfo-core", "ConfigUpdated"), None);
    assert_eq!(classify_by("another", "Ping"), None);
}

#[test]
fn messages_are_built() {
    assert!(!Terminate::default().closing);
    assert!(Terminate::closing().closing);
    let reason = TerminateReason::custom("reason".to_string());
    let terminate = Terminate::with_reason(Some(reason));
    assert!(!terminate.closing);
    assert!(matches!(terminate.reason, Some(TerminateReason::Custom(text)) if text == "reason"));
    assert!(SubscribeToActorStatuses::forcing().forcing);
    let rejected = ConfigRejected::from("oops".to_string());
    assert_eq!(rejected.reason, "oops");
}
