use std::convert::TryFrom;

use elfo::addr::NodeNo;
use elfo::node::{self, set_node_no, NodeCell};
use elfo::trace_id;
use elfo::tracing::generator::{ChunkRegistry, Generator};
use elfo::tracing::trace_id::{Bottom, TraceIdLayout, TruncatedTime, ZeroTraceId};
use elfo::tracing::validator::{
    CANNOT_BE_ZERO, HIGHEST_BIT_MUST_BE_ZERO, INVALID_NODE_NO, INVALID_TIMESTAMP,
};
use elfo::tracing::{TraceId, TraceIdValidator};

const SEC: u128 = 1_000_000_000;

/// Milliseconds since the unix epoch.
struct Clock(u64);

impl Clock {
    fn advance(&mut self, ms: u64) {
        self.0 += ms;
    }

    fn mono_nanos(&self) -> u64 {
        self.0 * 1_000_000
    }

    fn unix_secs(&self) -> u64 {
        self.0 / 1000
    }
}

#[test]
fn trace_id_it_works() {
    let mut clock = Clock(0);
    let node = NodeCell::default();
    let mut registry = ChunkRegistry { next: 0 };
    let mut prev = TraceId::from_raw(trace_id::FIRST_PREV);

    let sec = 1u64 << 38;
    let chunk = 1u64 << 10;
    let st = trace_id::generate(&mut prev, &node, &mut registry, clock.unix_secs()).to_raw();

    clock.advance(500);
    let id = trace_id::generate(&mut prev, &node, &mut registry, clock.unix_secs());
    assert_eq!(id.to_raw(), st + 1);
    clock.advance(500);
    let id = trace_id::generate(&mut prev, &node, &mut registry, clock.unix_secs());
    assert_eq!(id.to_raw(), st + sec + 2);
    clock.advance(500);
    let id = trace_id::generate(&mut prev, &node, &mut registry, clock.unix_secs());
    assert_eq!(id.to_raw(), st + sec + 3);
    clock.advance(500);
    let id = trace_id::generate(&mut prev, &node, &mut registry, clock.unix_secs());
    assert_eq!(id.to_raw(), st + 2 * sec + 4);

    // Another thread.
    let mut another = TraceId::from_raw(trace_id::FIRST_PREV);
    let id = trace_id::generate(&mut another, &node, &mut registry, clock.unix_secs());
    assert_eq!(id.to_raw(), st + 2 * sec + chunk);

    for i in 5..1023 {
        let id = trace_id::generate(&mut prev, &node, &mut registry, clock.unix_secs());
        assert_eq!(id.to_raw(), st + 2 * sec + i);
    }

    let id = trace_id::generate(&mut prev, &node, &mut registry, clock.unix_secs());
    assert_eq!(id.to_raw(), st + 2 * sec + 2 * chunk);
}

#[test]
fn default_node_no_is_used() {
    let mut node = NodeCell::default();
    let mut registry = ChunkRegistry { next: 0 };
    let mut prev = TraceId::from_raw(trace_id::FIRST_PREV);
    let id = trace_id::generate(&mut prev, &node, &mut registry, 0);
    assert_eq!(id.to_raw(), (65535 << 22) + 1);

    trace_id::set_node_no(&mut node, 7);
    let mut prev = TraceId::from_raw(trace_id::FIRST_PREV);
    let id = trace_id::generate(&mut prev, &node, &mut registry, 3);
    assert_eq!(id.to_raw(), (3 << 38) + (7 << 22) + (1 << 10) + 1);
}

fn is_divisible_by_chunk(diff: u64) {
    assert_eq!((diff / (1 << 10)) * (1 << 10), diff);
}

fn generate(generator: &mut Generator, registry: &mut ChunkRegistry, clock: &Clock) -> u64 {
    generator
        .generate(registry, None, clock.mono_nanos(), clock.unix_secs())
        .to_raw()
}

#[test]
fn smoke() {
    let mut clock = Clock(0);
    let mut registry = ChunkRegistry { next: 0 };
    let mut generator = Generator::new(clock.mono_nanos(), clock.unix_secs());

    let sec = 1 << 38;
    let st = generate(&mut generator, &mut registry, &clock);

    clock.advance(500);
    assert_eq!(generate(&mut generator, &mut registry, &clock), st + 1);
    clock.advance(500);
    assert_eq!(generate(&mut generator, &mut registry, &clock), st + sec + 2);
    clock.advance(500);
    assert_eq!(generate(&mut generator, &mut registry, &clock), st + sec + 3);
    clock.advance(500);
    assert_eq!(
        generate(&mut generator, &mut registry, &clock),
        st + 2 * sec + 4
    );

    // Another thread.
    let mut another_clock = Clock(0);
    another_clock.advance(2000);
    let mut another =
        Generator::new(another_clock.mono_nanos(), another_clock.unix_secs());
    is_divisible_by_chunk(
        generate(&mut another, &mut registry, &another_clock) - (st + 2 * sec),
    );

    for i in 5..1023 {
        assert_eq!(
            generate(&mut generator, &mut registry, &clock),
            st + 2 * sec + i
        );
    }

    is_divisible_by_chunk(generate(&mut generator, &mut registry, &clock) - (st + 2 * sec));
}

#[test]
fn node_no_can_be_changed() {
    let mut cell = NodeCell::default();
    assert_eq!(node::node_no(&cell).unwrap().into_bits(), 65535);
    set_node_no(&mut cell, 0);
    assert!(node::node_no(&cell).is_none());
    set_node_no(&mut cell, 42);
    assert_eq!(node::node_no(&cell), NodeNo::from_bits(42));
}

#[test]
fn ids_dont_repeat_among_threads() {
    let mut registry = ChunkRegistry { next: 0 };
    let mut first = Generator::new(0, 0);
    let mut second = Generator::new(0, 0);
    let mut ids = vec![];
    for _ in 0..3000 {
        ids.push(first.generate(&mut registry, None, 0, 0).to_raw());
        ids.push(second.generate(&mut registry, None, 0, 0).to_raw());
    }
    assert!(ids.iter().all(|id| *id < 1 << 63));
    ids.sort();
    ids.dedup();
    assert_eq!(ids.len(), 6000);
}

#[test]
fn truncated_time_delta_secs() {
    let check = |a, b, expected| {
        let a = TruncatedTime { secs: a };
        let b = TruncatedTime { secs: b };
        assert_eq!(a.abs_delta(b), expected);
        assert_eq!(b.abs_delta(a), expected);
    };

    check(5, 5, 0);
    check(25, 50, 25);
    check((1 << 25) - 15, (1 << 25) - 5, 10);
    check(0, (1 << 25) - 5, 5);
    check(1, (1 << 25) - 5, 6);
}

#[test]
fn layout_roundtrip() {
    fn check(raw_trace_id: u64) {
        let trace_id = TraceId::try_from(raw_trace_id).unwrap();
        let layout = trace_id.to_layout();
        assert_eq!(TraceId::from_layout(layout), trace_id);
    }

    check(1);
    check(9223372036854775807);

    // Just random numbers.
    check(36203675);
    check(75997165362483795);
    check(276561162443934569);
    check(2765611624439345695);
    check(5197794958151101819);
    check(8446744073709551614);
}

#[test]
fn layout_has_exact_parts() {
    let layout = TraceIdLayout {
        timestamp: TruncatedTime::now((1 << 25) + 3),
        node_no: NodeNo::from_bits(5),
        bottom: Bottom::new(9),
    };
    let trace_id = TraceId::from_layout(layout);
    assert_eq!(u64::from(trace_id), (3 << 38) + (5 << 22) + 9);
    let layout = trace_id.to_layout();
    assert_eq!(layout.timestamp.secs, 3);
    assert_eq!(layout.node_no.unwrap().into_bits(), 5);
    assert_eq!(layout.bottom.value, 9);

    assert!(matches!(TraceId::try_from(0), Err(ZeroTraceId)));
}

#[test]
fn validator_it_works() {
    let mut cell = NodeCell::default();
    set_node_no(&mut cell, 65535);
    let own = node::node_no(&cell);

    let mut now = 0;
    let validator = TraceIdValidator::default().max_time_difference(Some(5 * SEC));

    assert_eq!(validator.validate(0, own, now), Err(CANNOT_BE_ZERO));
    assert_eq!(
        validator.validate(1 << 63, own, now),
        Err(HIGHEST_BIT_MUST_BE_ZERO)
    );
    assert_eq!(
        validator.validate(u64::from(own.map_or(0, |n| n.into_bits())) << 22, own, now),
        Err(INVALID_NODE_NO)
    );

    assert!(validator.validate(5 << 38, own, now).is_ok());
    assert!(validator.validate(((1 << 25) - 5) << 38, own, now).is_ok());
    assert_eq!(
        validator.validate(6 << 38, own, now),
        Err(INVALID_TIMESTAMP)
    );
    assert_eq!(
        validator.validate(((1 << 25) - 6) << 38, own, now),
        Err(INVALID_TIMESTAMP)
    );

    now += 10;
    assert_eq!(
        validator.validate(16 << 38, own, now),
        Err(INVALID_TIMESTAMP)
    );
    assert_eq!(
        validator.validate(4 << 38, own, now),
        Err(INVALID_TIMESTAMP)
    );

    // Time isn't checked by default.
    let validator = TraceIdValidator::default();
    assert_eq!(
        validator.validate(4 << 38, own, now).map(u64::from),
        Ok(4 << 38)
    );
}

#[test]
fn node_no() {
    let mut registry = ChunkRegistry { next: 0 };
    let mut generator = Generator::new(0, 0);
    let id = generator.generate(&mut registry, None, 0, 0);
    assert!(id.to_layout().node_no.is_none());

    // It's known inside a scope.
    let known = node::node_no(&NodeCell::default());
    let id = generator.generate(&mut registry, known, 0, 0);
    assert!(id.to_layout().node_no.is_some());

    // And then remembered.
    let id = TraceId::generate(&mut generator, &mut registry, None, 0, 0);
    assert_eq!(id.to_layout().node_no, known);
}

#[test]
fn ids_without_state_dont_repeat_among_threads() {
    let node = NodeCell::default();
    let mut registry = ChunkRegistry { next: 4094 };
    let mut first = TraceId::from_raw(trace_id::FIRST_PREV);
    let mut second = TraceId::from_raw(trace_id::FIRST_PREV);
    let mut ids = vec![];
    for _ in 0..3000 {
        ids.push(trace_id::generate(&mut first, &node, &mut registry, 5).to_raw());
        ids.push(trace_id::generate(&mut second, &node, &mut registry, 5).to_raw());
    }
    assert!(ids.iter().all(|id| *id >> 63 == 0 && *id & 0x3ff != 0));
    ids.sort();
    ids.dedup();
    assert_eq!(ids.len(), 6000);
}
