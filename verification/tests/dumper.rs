use std::io;

use serde::ser::{Serialize, SerializeStruct, Serializer};

use elfo::actor::ActorMeta;
use elfo::addr::NodeNo;
use elfo::dumper::actor::{self, Action, AfterTick, Dumper, Routed};
use elfo::dumper::compact_dump::{CompactDump, Field};
use elfo::dumper::config::{Config, LogLevel, OnOverflow, Rule};
use elfo::dumper::dump::{Direction, Dump, MessageKind};
use elfo::dumper::dump_buffer::{
    AppendError, Appended, DumpBuffer, INITIAL_CAPACITY, MIN_CHUNK_SIZE,
};
use elfo::dumper::dump_path::{ComponentData, DumpPath, TemplateVariables, Variable};
use elfo::dumper::dump_storage::{Drain, DumpRegistry, DumpStorage, PART_CAPACITY};
use elfo::dumper::extract_name::{extract_name_into, Introduction};
use elfo::dumper::file_registry::{FileHandle, FileRegistry, Stage};
use elfo::dumper::recorder::{enabled, record, CheckResult};
use elfo::dumper::reporter::{overflow_message, Report, Reporter};
use elfo::dumper::rule_set::{DumpParams, RuleSet};
use elfo::routers::Outcome;
use elfo::tracing::TraceId;

// === DumpPath ===

fn time() -> Variable {
    Variable::Time {
        format: "%d.%m.%Y".to_string(),
    }
}

fn parse(template: &str) -> DumpPath {
    let formats = DumpPath::time_formats(template);
    DumpPath::parse(template.to_string(), &vec![true; formats.len()]).unwrap()
}

#[test]
fn it_renders_correctly() {
    fn case(template: &str, class: &str, times: &[&str], expected: &str) {
        let path = parse(template);
        let mut actual = String::new();
        let times = times.iter().map(|time| time.to_string()).collect();
        let vars = TemplateVariables {
            class,
            times: &times,
        };
        path.render_into(&vars, &mut actual);

        assert_eq!(actual, expected);
        assert_eq!(path.to_string(), template);
    }

    // Simple class substitution
    case("/tmp/{class}.dump", "class", &[], "/tmp/class.dump");

    // Class and time.
    assert_eq!(
        DumpPath::time_formats("/tmp/dump-{class}-{time:%H:%M}.dump"),
        vec!["%H:%M".to_string()]
    );
    case(
        "/tmp/dump-{class}-{time:%H:%M}.dump",
        "class",
        // 1 hour 10 minutes
        &["01:10"],
        "/tmp/dump-class-01:10.dump",
    );
}

#[test]
fn it_parses_correctly() {
    fn case(template: &'static str, expected: Vec<(usize, ComponentData)>) {
        let path = parse(template);
        let actual = path.components();
        assert_eq!(actual.len(), expected.len());
        for (component, (size, data)) in actual.iter().zip(expected) {
            assert_eq!(component.size, size);
            assert_eq!(component.data, data);
        }
    }

    // Path without template variables.
    case("/tmp/dump.dump", vec![(14, ComponentData::Path)]);

    // Dump with class.
    case(
        "/tmp/{class}.dump",
        vec![
            (5, ComponentData::Path),
            (7, ComponentData::Variable(Variable::Class)),
            (5, ComponentData::Path),
        ],
    );

    // {time} precedes {class}.
    case(
        "/tmp/{class}{time:%d.%m.%Y}.dump",
        vec![
            (5, ComponentData::Path),
            (7, ComponentData::Variable(Variable::Class)),
            (15, ComponentData::Variable(time())),
            (5, ComponentData::Path),
        ],
    );

    // Invalid template variables are treated just like path.
    case("/tmp/{lol}{kek}.dump", vec![(20, ComponentData::Path)]);

    // Valid template variable precedes invalid.
    case(
        "/tmp/{lol}{time:%d.%m.%Y}.dump",
        vec![
            (10, ComponentData::Path),
            (15, ComponentData::Variable(time())),
            (5, ComponentData::Path),
        ],
    );
}

#[test]
fn invalid_formats_are_rejected() {
    let template = "{time:%H}{time:bad}{time:worse}";
    let err = DumpPath::parse(template.to_string(), &vec![true, false, false]).unwrap_err();
    assert_eq!(err.format, "bad");
}

#[test]
fn unrecognised_variables_are_kept() {
    let template = "/tmp/{lol}{Class}{time}{}.dump{class";
    let mut actual = String::new();
    let vars = TemplateVariables {
        class: "class",
        times: &vec![],
    };
    parse(template).render_into(&vars, &mut actual);
    assert_eq!(actual, template);
}

#[test]
fn non_ascii_templates_are_rendered() {
    let path = parse("/дамп/{class}/{ёж");
    let times = vec![];
    let vars = TemplateVariables {
        class: "класс",
        times: &times,
    };
    let mut actual = "prefix".to_string();
    path.render_into(&vars, &mut actual);
    assert_eq!(actual, "prefix/дамп/класс/{ёж");
}

// === DumpBuffer ===

struct Writer<'a>(&'a mut DumpBuffer);

impl io::Write for Writer<'_> {
    fn write(&mut self, buf: &[u8]) -> io::Result<usize> {
        Ok(self.0.write(buf))
    }

    fn flush(&mut self) -> io::Result<()> {
        Ok(())
    }
}

fn append<D: Serialize + ?Sized>(
    buffer: &mut DumpBuffer,
    dump: &D,
) -> Result<Option<Vec<u8>>, AppendError> {
    buffer.begin();
    let res = serde_json::to_writer(Writer(buffer), dump);
    let is_ready = buffer.append(res)?;
    Ok(if is_ready {
        Some(buffer.chunk().to_vec())
    } else {
        None
    })
}

fn take(buffer: &mut DumpBuffer) -> Option<Vec<u8>> {
    if buffer.take() {
        Some(buffer.chunk().to_vec())
    } else {
        None
    }
}

struct Sample {
    n: u32,
    s: String,
}

impl Serialize for Sample {
    fn serialize<S: Serializer>(&self, serializer: S) -> Result<S::Ok, S::Error> {
        let mut s = serializer.serialize_struct("Sample", 2)?;
        s.serialize_field("n", &self.n)?;
        s.serialize_field("s", &self.s)?;
        s.end()
    }
}

#[test]
fn dump_buffer_it_works() {
    let mut buffer = DumpBuffer::new(2 * INITIAL_CAPACITY);

    // Put some dumps without exceeding the chunk's size.
    assert!(take(&mut buffer).is_none());
    assert!(append(&mut buffer, &1).unwrap().is_none());
    assert!(append(&mut buffer, &2).unwrap().is_none());
    assert!(append(&mut buffer, &3).unwrap().is_none());
    assert_eq!(take(&mut buffer).unwrap(), b"1\n2\n3\n");

    // Check that old data aren't used.
    assert!(take(&mut buffer).is_none());
    assert!(append(&mut buffer, "1").unwrap().is_none());
    assert!(append(&mut buffer, "2").unwrap().is_none());
    assert!(append(&mut buffer, "3").unwrap().is_none());
    assert_eq!(take(&mut buffer).unwrap(), b"\"1\"\n\"2\"\n\"3\"\n");
    assert!(take(&mut buffer).is_none());

    // Put dumps with exceeding the chunk's size;
    let one = "1".repeat(MIN_CHUNK_SIZE / 3 * 2);
    let two = "2".repeat(MIN_CHUNK_SIZE / 3 * 2);
    let expected = format!("\"{one}\"\n\"{two}\"\n");
    assert!(append(&mut buffer, &one).unwrap().is_none());
    let buf = append(&mut buffer, &two).unwrap().unwrap();
    assert_eq!(buf, expected.as_bytes());

    // Check erroneous data aren't added to the buffer.
    let small = Sample {
        n: 5,
        s: String::new(),
    };
    let big = Sample {
        n: 5,
        s: "1".repeat(50),
    };

    buffer.configure(50);
    assert!(append(&mut buffer, &small).unwrap().is_none());
    assert!(matches!(
        append(&mut buffer, &big).unwrap_err(),
        AppendError::LimitExceeded(_)
    ));
    assert!(append(&mut buffer, &small).unwrap().is_none());
    assert!(matches!(
        append(&mut buffer, &big).unwrap_err(),
        AppendError::LimitExceeded(_)
    ));
    assert_eq!(
        take(&mut buffer).unwrap(),
        b"{\"n\":5,\"s\":\"\"}\n{\"n\":5,\"s\":\"\"}\n"
    );
}

struct Broken;

impl Serialize for Broken {
    fn serialize<S: Serializer>(&self, _serializer: S) -> Result<S::Ok, S::Error> {
        Err(serde::ser::Error::custom("oops"))
    }
}

#[test]
fn broken_dumps_are_skipped() {
    let mut buffer = DumpBuffer::new(100);
    assert!(append(&mut buffer, &1).unwrap().is_none());
    assert!(matches!(
        append(&mut buffer, &Broken).unwrap_err(),
        AppendError::SerializationFailed(err) if err.to_string() == "oops"
    ));
    assert_eq!(take(&mut buffer).unwrap(), b"1\n");
}

#[test]
fn too_big_dumps_are_truncated() {
    let mut buffer = DumpBuffer::new(100);
    let big = Sample {
        n: 5,
        s: "1".repeat(50),
    };

    buffer.begin_limited(20);
    let res = serde_json::to_writer(Writer(&mut buffer), &big);
    let appended = buffer.append_or_truncate(res, OnOverflow::Truncate).unwrap();
    assert!(appended.is_truncated);
    assert!(!appended.is_ready);

    // The limit of the next dump is the common one.
    assert!(append(&mut buffer, &big).unwrap().is_none());

    buffer.begin_limited(20);
    let res = serde_json::to_writer(Writer(&mut buffer), &big);
    assert!(matches!(
        buffer.append_or_truncate(res, OnOverflow::Skip).unwrap_err(),
        AppendError::LimitExceeded(20)
    ));

    // Broken dumps are never left incomplete.
    buffer.begin();
    let res = serde_json::to_writer(Writer(&mut buffer), &Broken);
    assert!(matches!(
        buffer.append_or_truncate(res, OnOverflow::Truncate).unwrap_err(),
        AppendError::SerializationFailed(_)
    ));

    let ones = "1".repeat(50);
    let expected = format!("{{\"n\":5,\"s\":\"TRUNCATED\n{{\"n\":5,\"s\":\"{ones}\"}}\n");
    assert_eq!(take(&mut buffer).unwrap(), expected.as_bytes());
}

// === DumpStorage ===

fn dump(sequence_no: u64, name: &str) -> Dump {
    Dump {
        meta: ActorMeta {
            group: "group".to_string(),
            key: "key".to_string(),
        },
        sequence_no,
        timestamp: 42,
        trace_id: TraceId::from_raw(42),
        thread_id: 7,
        direction: Direction::In,
        message_name: name.to_string(),
        message_protocol: "proto".to_string(),
        message_kind: MessageKind::Regular,
        message: vec![52, 50],
    }
}

#[test]
fn dump_storage_it_works() {
    let mut registry = DumpRegistry::new("class".to_string(), 100);
    let shard_no = registry.make_shard();
    let mut drain = Drain::new();

    assert!(drain.next(&mut registry, true).is_none());
    assert!(drain.next(&mut registry, true).is_none());

    registry.add(shard_no, dump(1, "1"));

    let msg = drain.next(&mut registry, true).unwrap();
    assert_eq!(msg.meta.group, "group");
    assert_eq!(msg.meta.key, "key");
    assert_eq!(msg.sequence_no, 1);
    assert_eq!(msg.timestamp, 42);
    assert_eq!(msg.trace_id, TraceId::from_raw(42));
    assert_eq!(msg.direction, Direction::In);
    assert_eq!(registry.class(), "class");
    assert_eq!(msg.message_name, "1");
    assert_eq!(msg.message_protocol, "proto");
    assert_eq!(msg.message_kind, MessageKind::Regular);

    assert!(drain.next(&mut registry, true).is_none());

    registry.add(shard_no, dump(2, "2"));
    registry.add(shard_no, dump(3, "3"));

    let msg = drain.next(&mut registry, true).unwrap();
    assert_eq!(msg.sequence_no, 2);
    assert_eq!(msg.timestamp, 42);
    assert_eq!(msg.message_name, "2");
    let msg = drain.next(&mut registry, true).unwrap();
    assert_eq!(msg.message_name, "3");

    assert!(drain.next(&mut registry, true).is_none());
}

#[test]
fn draining_is_fair() {
    let mut registry = DumpRegistry::new("class".to_string(), 100);
    let a = registry.make_shard();
    let b = registry.make_shard();
    let part = PART_CAPACITY as u32;
    for i in 0..part + 1 {
        registry.add(a, i);
    }
    registry.add(b, 1_000_000);

    // No more than one part per shard in a row.
    let mut drain = Drain::new();
    for i in 0..part {
        assert_eq!(drain.next(&mut registry, true), Some(i));
    }
    assert_eq!(drain.next(&mut registry, true), Some(1_000_000));
    assert_eq!(drain.next(&mut registry, true), Some(part));
    assert_eq!(drain.next(&mut registry, true), None);
}

#[test]
fn draining_is_limited_in_time() {
    let mut registry = DumpRegistry::new("class".to_string(), 100);
    let shard_no = registry.make_shard();
    registry.add(shard_no, 1);
    registry.add(shard_no, 2);

    let mut drain = Drain::new();
    assert_eq!(drain.next(&mut registry, false), None);
    assert_eq!(drain.next(&mut registry, true), Some(1));
    // The rest is returned back.
    drain.finish(&mut registry);
    let mut drain = Drain::new();
    assert_eq!(drain.next(&mut registry, true), Some(2));
}

#[test]
fn rest_of_part_returns_to_its_shard() {
    let mut registry: DumpRegistry<u64> = DumpRegistry::new("class".to_string(), 10);
    let a = registry.make_shard();
    let b = registry.make_shard();
    for i in 0..3 {
        registry.add(a, i);
        registry.add(b, 10 + i);
    }

    let mut drain = Drain::new();
    assert_eq!(drain.next(&mut registry, true), Some(0));
    drain.finish(&mut registry);
    assert_eq!(registry.fund.filled_parts[a][0].items, [1, 2]);
    assert_eq!(registry.fund.filled_parts[b].len(), 0);
    assert_eq!(registry.shards[b].items, [10, 11, 12]);
}

#[test]
fn no_more_parts_are_dropped_than_needed() {
    let mut registry: DumpRegistry<u64> = DumpRegistry::new("class".to_string(), 10);
    let shard = registry.make_shard();
    for i in 0..(4 * PART_CAPACITY as u64 + 1) {
        registry.add(shard, i);
    }
    // Four filled parts and the active one.
    assert_eq!(registry.fund.part_count, 5);
    assert_eq!(registry.fund.filled_parts[shard].len(), 4);

    let drained = registry.fund.get_filled_part(shard).unwrap();
    assert_eq!(drained.items.len(), PART_CAPACITY);
    let mut drained = drained;
    drained.clear();
    registry.fund.add_empty_part(drained);

    // An empty part goes first.
    registry.configure(4);
    assert_eq!(registry.fund.part_count, 4);
    assert_eq!(registry.fund.empty_parts.len(), 0);
    assert_eq!(registry.fund.filled_parts[shard].len(), 3);

    // Then the oldest filled ones.
    registry.configure(2);
    assert_eq!(registry.fund.part_count, 2);
    assert_eq!(registry.fund.filled_parts[shard].len(), 1);
    assert_eq!(registry.fund.filled_parts[shard][0].items[0], 3 * PART_CAPACITY as u64);

    // The active part stays.
    registry.configure(0);
    assert_eq!(registry.fund.part_count, 1);
    registry.configure(7);
    assert_eq!(registry.fund.part_count, 1);
    assert_eq!(registry.fund.max_part_count, 7);
}

#[test]
fn oldest_dumps_are_lost() {
    let part = PART_CAPACITY as u32;
    let mut storage = DumpStorage::new();
    storage.configure(3 * PART_CAPACITY);
    let pos = storage.registry("class");
    assert_eq!(storage.registry("class"), pos);
    assert_ne!(storage.registry("another"), pos);
    assert_eq!(
        storage.classes(),
        vec!["class".to_string(), "another".to_string()]
    );

    let registry = &mut storage.registries[pos];
    let shard_no = registry.make_shard();
    for i in 0..5 * part {
        registry.add(shard_no, i);
    }

    let mut drain = Drain::new();
    let mut rest = vec![];
    while let Some(dump) = drain.next(registry, true) {
        rest.push(dump);
    }
    assert!(rest.len() < 5 * PART_CAPACITY);
    // Only the oldest ones are lost, the rest is in order.
    assert_eq!(*rest.last().unwrap(), 5 * part - 1);
    let first = rest[0];
    let expected: Vec<u32> = (first..5 * part).collect();
    assert_eq!(rest, expected);
}

#[test]
fn dumps_are_recorded() {
    let mut registry = DumpRegistry::new("class".to_string(), 100);
    let shard_no = registry.make_shard();
    assert_eq!(
        record(&mut registry, shard_no, 5),
        "elfo_emitted_dumps_total"
    );
    assert_eq!(Drain::new().next(&mut registry, true), Some(5));

    let check = enabled(Some(CheckResult::Passed));
    assert!(check.enabled);
    let check = enabled(Some(CheckResult::Limited));
    assert!(!check.enabled);
    assert!(check.consumes_sequence_no);
    assert_eq!(check.counter, Some("elfo_limited_dumps_total"));
    let check = enabled(Some(CheckResult::NotInterested));
    assert!(!check.enabled && !check.consumes_sequence_no && check.counter.is_none());
    assert!(!enabled(None).enabled);
}

// === RuleSet ===

fn rule() -> Rule {
    Rule {
        class: None,
        protocol: None,
        message: None,
        max_size: None,
        on_overflow: None,
        log_on_overflow: None,
        log_on_failure: None,
    }
}

#[test]
fn rule_set_it_works() {
    let mut rules = vec![
        Rule {
            class: Some("another".into()),
            max_size: Some(0),
            ..rule()
        },
        Rule {
            class: Some("some".into()),
            protocol: Some("proto_a".into()),
            max_size: Some(1),
            ..rule()
        },
        Rule {
            message: Some("A".into()),
            max_size: Some(2),
            ..rule()
        },
        Rule {
            protocol: Some("proto_b".into()),
            message: Some("B".into()),
            max_size: Some(3),
            log_on_overflow: Some(LogLevel::Info),
            ..rule()
        },
        Rule {
            message: Some("B".into()),
            max_size: Some(4),
            log_on_failure: Some(LogLevel::Error),
            ..rule()
        },
    ];

    let mut set = RuleSet::new("some".to_string());
    set.configure(&rules);

    // No rules are applied.
    assert_eq!(
        set.do_get("unused_proto", "U"),
        (false, DumpParams::default())
    );
    // From the cache.
    assert!(set.do_get("unused_proto", "U").0);

    // One rule is applied.
    assert_eq!(
        set.do_get("proto_b", "A"),
        (
            false,
            DumpParams {
                max_size: 2,
                ..DumpParams::default()
            }
        )
    );
    // From the cache.
    assert!(set.do_get("proto_b", "A").0);

    // Multiple rules are applied.
    assert_eq!(
        set.do_get("proto_a", "A"),
        (
            false,
            DumpParams {
                max_size: 2,
                ..DumpParams::default()
            }
        )
    );
    // From the cache.
    assert!(set.do_get("proto_a", "A").0);

    // Multiple rules are applied, params are merged.
    assert_eq!(
        set.do_get("proto_b", "B"),
        (
            false,
            DumpParams {
                max_size: 4,
                log_on_overflow: LogLevel::Info,
                log_on_failure: LogLevel::Error,
                ..DumpParams::default()
            }
        )
    );
    // From the cache.
    assert!(set.do_get("proto_b", "B").0);

    // Reconfiguration with the same rules for the class doesn't reset the cache.
    rules.remove(0);
    set.configure(&rules);
    assert!(set.do_get("proto_a", "A").0);
    assert!(set.do_get("proto_b", "B").0);

    // Reconfiguration with different rules resets the cache.
    rules.remove(0);
    set.configure(&rules);
    assert!(!set.do_get("proto_a", "A").0);
    assert!(!set.do_get("proto_b", "B").0);
}

#[test]
fn params_have_defaults() {
    let params = RuleSet::new("some".to_string()).get("proto", "Name");
    assert_eq!(params.max_size, 64 * 1024);
    assert_eq!(params.on_overflow, OnOverflow::Skip);
    assert_eq!(params.log_on_overflow, LogLevel::Warn);
    assert_eq!(params.log_on_failure, LogLevel::Warn);
}

// === Config ===

#[test]
fn path_depends_on_class() {
    let config = Config::new("path/{class}-{class}.dump".to_string());
    assert_eq!(config.path("some"), "path/some-some.dump");
    assert_eq!(config.write_interval, 500_000_000);
    assert_eq!(config.log_cooldown, 60_000_000_000);
    assert_eq!(config.registry_capacity, 3_000_000);
    assert!(config.rules.is_empty());

    let config = Config::new("path/all.dump".to_string());
    assert_eq!(config.path("some"), "path/all.dump");
}

// === Reporter ===

#[test]
fn reports_are_throttled() {
    let params = DumpParams::default();
    let overflow = |truncated| {
        let mut report = Report::new();
        report.appended = 3;
        report.add_overflow("proto", "Name", truncated, &params);
        report
    };

    let mut reporter = Reporter::new(100);
    let emitted = reporter.add(overflow(false), 1000);
    assert_eq!(emitted.appended, 3);
    assert_eq!(emitted.logged.unwrap().overflow.items[0].count, 1);

    // Metrics are emitted immediately, logs are not.
    let emitted = reporter.add(overflow(false), 1050);
    assert_eq!(emitted.appended, 3);
    assert!(emitted.logged.is_none());
    let emitted = reporter.add(overflow(true), 1060);
    assert!(emitted.logged.is_none());

    let emitted = reporter.add(overflow(false), 1100);
    let logged = emitted.logged.unwrap();
    assert_eq!(logged.overflow.items.len(), 2);
    let counts: Vec<_> = logged
        .overflow
        .items
        .iter()
        .map(|info| (info.truncated, info.count))
        .collect();
    assert!(counts.contains(&(false, 2)));
    assert!(counts.contains(&(true, 1)));

    reporter.configure(1_000_000);
    let emitted = reporter.add(overflow(false), 2000);
    assert!(emitted.logged.is_none());
    assert!(reporter.emit(true, 2001).logged.is_some());
    assert_eq!(overflow_message(true), "too big dump, truncated");
    assert_eq!(overflow_message(false), "too big dump, skipped");
}

#[test]
fn failures_are_reported() {
    let error = || serde_json::from_str::<u8>("oops").unwrap_err();
    let mut params = DumpParams::default();
    let mut report = Report::new();
    report.add_failed("proto", "Name", error(), &params);
    report.add_failed("proto", "Name", error(), &params);
    assert_eq!(report.failed.items.len(), 1);
    assert_eq!(report.failed.items[0].count, 2);

    params.log_on_failure = LogLevel::Off;
    report.add_failed("proto", "Another", error(), &params);
    assert_eq!(report.failed.items.len(), 1);
}

#[test]
fn results_are_counted() {
    let params = DumpParams::default();
    let mut report = Report::new();
    let appended = |is_ready, is_truncated| {
        Ok(Appended {
            is_ready,
            is_truncated,
        })
    };
    assert!(report.account("proto", "A", appended(true, false), &params));
    assert!(!report.account("proto", "A", appended(false, false), &params));
    let exceeded = Err(AppendError::LimitExceeded(5));
    assert!(!report.account("proto", "A", exceeded, &params));
    let error = serde_json::from_str::<u8>("oops").unwrap_err();
    let failed = Err(AppendError::SerializationFailed(error));
    assert!(!report.account("proto", "B", failed, &params));

    assert_eq!(report.appended, 2);
    assert_eq!(report.overflow.items.len(), 1);
    assert_eq!(report.overflow.items[0].name, "A");
    assert_eq!(report.failed.items.len(), 1);
    assert_eq!(report.failed.items[0].name, "B");

    // Truncated dumps are written, but reported as well.
    assert!(!report.account("proto", "A", appended(false, true), &params));
    assert_eq!(report.appended, 3);
    assert_eq!(report.overflow.items.len(), 2);
    assert!(!report.overflow.items[0].truncated);
    assert!(report.overflow.items[1].truncated);
}

// === Name extractor ===

#[test]
fn struct_() {
    let mut s = String::new();
    assert_eq!(
        extract_name_into(&mut s, &Introduction::Struct("Struct")),
        Ok(true)
    );
    assert_eq!(s, "Struct");
}

#[test]
fn unit_struct() {
    let mut s = String::new();
    assert_eq!(
        extract_name_into(&mut s, &Introduction::Struct("UnitStruct")),
        Ok(true)
    );
    assert_eq!(s, "UnitStruct");
}

#[test]
fn newtype_struct() {
    let mut s = String::new();
    assert_eq!(
        extract_name_into(&mut s, &Introduction::Struct("NewtypeStruct")),
        Ok(true)
    );
    assert_eq!(s, "NewtypeStruct");
}

#[test]
fn tuple_struct() {
    let mut s = String::new();
    assert_eq!(
        extract_name_into(&mut s, &Introduction::Struct("TupleStruct")),
        Ok(true)
    );
    assert_eq!(s, "TupleStruct");
}

#[test]
fn enum_() {
    for (variant, expected) in [
        ("A", "Enum::A"),
        ("B", "Enum::B"),
        ("C", "Enum::C"),
        ("D", "Enum::D"),
    ] {
        let mut s = String::new();
        let value = Introduction::Variant("Enum", variant);
        assert_eq!(extract_name_into(&mut s, &value), Ok(true));
        assert_eq!(s, expected);
    }
}

#[test]
fn some() {
    let mut s = String::new();
    let value = Introduction::Present(Box::new(Introduction::Struct("Struct")));
    assert_eq!(extract_name_into(&mut s, &value), Ok(true));
    assert_eq!(s, "Struct");
}

#[test]
fn inapplicable() {
    let mut s = String::new();
    assert_eq!(
        extract_name_into(&mut s, &Introduction::Nameless),
        Ok(false)
    );
    let value = Introduction::Present(Box::new(Introduction::Nameless));
    assert_eq!(extract_name_into(&mut s, &value), Ok(false));
    assert!(s.is_empty());
}

#[test]
fn custom_error() {
    let mut s = String::new();
    let value = Introduction::Refusal("oops".to_string());
    assert_eq!(
        extract_name_into(&mut s, &value),
        Err("oops".to_string())
    );
    assert!(s.is_empty());
}

#[test]
fn names_are_appended() {
    let mut s = "prefix ".to_string();
    extract_name_into(&mut s, &Introduction::Variant("Enum", "A")).unwrap();
    assert_eq!(s, "prefix Enum::A");
}

// === CompactDump ===

#[test]
fn fields_are_ordered() {
    let names = |dump: &Dump| -> Vec<&'static str> {
        CompactDump::new(dump, "class", "Name")
            .fields(NodeNo::from_bits(1))
            .iter()
            .map(|field| field.name())
            .collect()
    };

    let mut dump = dump(1, "Name");
    assert_eq!(
        names(&dump),
        vec!["ts", "g", "k", "n", "s", "t", "th", "d", "cl", "mn", "mp", "mk", "m"]
    );
    dump.meta.key.clear();
    dump.message_kind = MessageKind::Request(5);
    assert_eq!(
        names(&dump),
        vec!["ts", "g", "n", "s", "t", "th", "d", "cl", "mn", "mp", "mk", "m", "c"]
    );

    let compact = CompactDump::new(&dump, "class", "Name");
    let fields = compact.fields(NodeNo::from_bits(1));
    assert!(matches!(fields[0], Field::Timestamp(42)));
    assert!(matches!(fields[10], Field::MessageKind("Request")));
    assert!(matches!(fields[12], Field::CorrelationId(5)));
    assert_eq!(compact.field_count(), 12);
    assert!(matches!(fields[2], Field::Node(Some(_))));
    assert!(matches!(compact.fields(None)[2], Field::Node(None)));
}

// === FileRegistry ===

#[test]
fn files_are_shared() {
    let mut registry = FileRegistry::new();
    let a = registry.acquire("a");
    let b = registry.acquire("b");
    assert_ne!(a, b);
    assert_eq!(registry.acquire("a"), a);
    assert_eq!(registry.schedule_reopen(), vec![a, b]);

    registry.on_drop("a", 2);
    assert_eq!(registry.acquire("a"), a);
    registry.on_drop("a", 1);
    assert_ne!(registry.acquire("a"), a);
    assert_eq!(registry.acquire("b"), b);
}

#[test]
fn files_are_reopened() {
    let mut handle: FileHandle<u8> = FileHandle::new("path".to_string());
    // It isn't opened yet.
    assert_eq!(handle.begin_sync(), None);
    assert_eq!(handle.begin_write(), None);
    assert_eq!(handle.finish(Ok(1)), Ok(()));

    assert_eq!(handle.begin_write(), Some(1));
    assert_eq!(handle.finish(Err(Stage::Write)), Err(Stage::Write));
    assert_eq!(Stage::Write.description(), "cannot write to");

    // Reopened because of the error.
    assert_eq!(handle.begin_write(), None);
    handle.finish(Ok(2)).unwrap();

    // Reopened because it's asked.
    handle.schedule_reopen();
    assert_eq!(handle.begin_write(), None);
    handle.finish(Ok(3)).unwrap();
    assert_eq!(handle.begin_sync(), Some(3));
}

// === Dumper ===

fn strings(list: &[&str]) -> Vec<String> {
    list.iter().map(|s| s.to_string()).collect()
}

#[test]
fn dumper_handles_messages() {
    let config = Config::new("{class}.dump".to_string());
    let mut dumper = Dumper::new("internal".to_string());

    let actions = dumper.start(&config, "1.dump".to_string());
    assert_eq!(actions.len(), 4);
    assert!(
        matches!(&actions[0], Action::Open { path, force: false } if path.as_str() == "1.dump")
    );
    assert!(matches!(actions[3], Action::StartInterval(500_000_000)));

    let actions = dumper.on_config_updated(&config, "2.dump".to_string());
    assert_eq!(actions.len(), 5);
    assert!(
        matches!(&actions[1], Action::Open { path, force: false } if path.as_str() == "2.dump")
    );
    assert!(matches!(actions[4], Action::ConfigureStorage(3_000_000)));

    let action = dumper.on_reopen();
    assert!(matches!(action, Action::Open { path, force: true } if path == "2.dump"));

    let action = dumper.on_tick(&config, "3.dump".to_string());
    assert!(matches!(action, Action::WriteDumps { path, .. } if path == "3.dump"));

    // Dumpers of new classes are started once.
    let classes = strings(&["internal", "custom"]);
    let res = dumper.after_tick(&classes);
    assert!(matches!(res, AfterTick::Spawn(new) if new == vec!["custom"]));
    let res = dumper.after_tick(&classes);
    assert!(matches!(res, AfterTick::Spawn(new) if new.is_empty()));

    // The last dumps are written on the next tick.
    dumper.on_terminate();
    let action = dumper.on_tick(&config, "4.dump".to_string());
    assert!(matches!(action, Action::WriteDumps { .. }));
    let res = dumper.after_tick(&classes);
    assert!(matches!(res, AfterTick::Sync { path } if path == "4.dump"));
}

#[test]
fn only_manager_starts_dumpers() {
    let config = Config::new("{class}.dump".to_string());
    let mut dumper = Dumper::new("custom".to_string());
    let actions = dumper.on_config_updated(&config, "2.dump".to_string());
    assert_eq!(actions.len(), 4);
    let new = dumper.spawn_dumpers_if_needed(&strings(&["internal", "custom"]));
    assert!(new.is_empty());
}

#[test]
fn dumpers_are_routed() {
    let classes = strings(&["internal", "custom"]);
    let outcome = actor::route(&Routed::UpdateConfig, &classes);
    assert!(matches!(outcome, Outcome::Multicast(list) if list == classes));
    let routed = Routed::StartDumperForClass("custom".to_string());
    let outcome = actor::route(&routed, &classes);
    assert!(matches!(outcome, Outcome::Unicast(class) if class == "custom"));
    let outcome = actor::route(&Routed::Other, &classes);
    assert!(matches!(outcome, Outcome::Default));

    let params = actor::restart_policy().restart_params().unwrap();
    assert_eq!(params.min_backoff, 5_000_000_000);
    assert_eq!(params.max_backoff, 30_000_000_000);
}
