use elfo::addr::Addr;
use elfo::envelope::{Envelope, MessageKind};
use elfo::message::{AnyMessage, MessageTypeId, MessageVTable};
use elfo::poll::Poll;
use elfo::time::factory;
use elfo::time::stopwatch::Stopwatch;
use elfo::time::{far_future, Delay, Interval, FAR};
use elfo::tracing::TraceId;

const SEC: u128 = 1_000_000_000;

fn message(num: u8) -> AnyMessage {
    let id = MessageTypeId { raw: 1 };
    let vtable = MessageVTable::new(id, "Timeout".to_string(), "test".to_string(), true);
    AnyMessage::new(vtable, vec![num])
}

fn trace_id(raw: u64) -> TraceId {
    TraceId::from_raw(raw)
}

fn emitted(res: Poll<Option<Envelope>>) -> Envelope {
    match res {
        Poll::Ready(Some(envelope)) => envelope,
        _ => panic!("nothing is emitted"),
    }
}

#[test]
fn stopwatch_it_works() {
    let mut now = 0;
    let mut sw = Stopwatch::new(|| message(1), now);

    for _ in 0..=5 {
        // Before scheduling.
        let res = sw.poll_recv(sw.deadline <= now, trace_id(1));
        assert!(matches!(res, Poll::Pending));

        sw.schedule_after(now, 10 * SEC);
        let res = sw.poll_recv(sw.deadline <= now, trace_id(1));
        assert!(matches!(res, Poll::Pending));

        // Some time passed, but not enough yet.
        now += 9 * SEC;
        let res = sw.poll_recv(sw.deadline <= now, trace_id(1));
        assert!(matches!(res, Poll::Pending));

        // Time passed.
        now += 1001 * SEC / 1000;
        let res = sw.poll_recv(sw.deadline <= now, trace_id(7));
        let envelope = emitted(res);
        assert_eq!(envelope.trace_id, trace_id(7));
        assert_eq!(envelope.message.data, vec![1]);

        // Fired only once.
        let res = sw.poll_recv(sw.deadline <= now, trace_id(1));
        assert!(matches!(res, Poll::Pending));
    }
}

#[test]
fn delay_fires_once() {
    let mut delay = Delay::new(5, 10, message(3), trace_id(2));
    assert_eq!(delay.deadline, 15);
    assert!(matches!(delay.poll_recv(false, trace_id(9)), Poll::Pending));

    let envelope = emitted(delay.poll_recv(true, trace_id(9)));
    // The current trace is continued.
    assert_eq!(envelope.trace_id, trace_id(2));
    assert_eq!(envelope.message.data, vec![3]);
    assert!(matches!(envelope.kind, MessageKind::Regular { sender } if sender == Addr::null()));

    assert!(matches!(
        delay.poll_recv(true, trace_id(9)),
        Poll::Ready(None)
    ));
}

#[test]
fn terminated_delay_never_fires() {
    let mut delay = Delay::until(5, message(3), trace_id(2));
    delay.terminate(100);
    assert_eq!(delay.deadline, 100 + FAR);
    assert_eq!(far_future(100), delay.deadline);
}

#[test]
fn interval_emits_periodically() {
    let mut interval = Interval::new(message(1), 0);
    // It isn't started yet.
    assert!(matches!(
        interval.poll_recv(true, trace_id(1)),
        Poll::Pending
    ));

    interval.start(100, 10);
    assert_eq!(interval.deadline, 110);
    for i in 1..4 {
        let envelope = emitted(interval.poll_recv(true, trace_id(i)));
        assert_eq!(envelope.trace_id, trace_id(i));
        assert_eq!(interval.deadline, 110 + 10 * i as u128);
    }

    interval.set_message(message(2));
    let envelope = emitted(interval.poll_recv(true, trace_id(5)));
    assert_eq!(envelope.message.data, vec![2]);

    interval.stop(200);
    assert!(matches!(
        interval.poll_recv(true, trace_id(1)),
        Poll::Pending
    ));
}

#[test]
fn interval_period_can_be_changed() {
    let mut interval = Interval::new(message(1), 0);
    // Does nothing until started.
    assert!(!interval.set_period(7));

    interval.start(100, 10);
    assert!(interval.set_period(15));
    assert_eq!(interval.deadline, 115);
    assert!(!interval.set_period(15));
    assert!(interval.set_period(10));
    assert_eq!(interval.deadline, 110);

    // The first tick isn't affected.
    interval.start_after(100, 3, 10);
    assert_eq!(interval.deadline, 103);
    assert!(!interval.set_period(20));
    assert_eq!(interval.deadline, 103);
    emitted(interval.poll_recv(true, trace_id(1)));
    assert_eq!(interval.deadline, 123);

    interval.start_at(500, 10);
    assert_eq!(interval.deadline, 500);
}

#[test]
fn interval_with_factory_works() {
    let mut interval = factory::Interval::new(|| message(4), 0).after(0, 5);
    assert_eq!(interval.start_at, Some(5));

    interval.set_period(10);
    let envelope = emitted(interval.poll_recv(true, trace_id(3)));
    assert_eq!(envelope.message.data, vec![4]);
    assert!(matches!(
        interval.poll_recv(false, trace_id(3)),
        Poll::Pending
    ));

    interval.reset(50);
    assert_eq!(interval.deadline, 60);
}
