use vstd::prelude::*;

use super::dump_storage::{DumpRegistry, ShardNo};

verus! {

/// Whether an actor is allowed to dump.
#[derive(Debug, Clone, Copy, PartialEq, Eq, Structural)]
pub enum CheckResult {
    Passed,
    NotInterested,
    Limited,
}

/// What should be done if an actor wants to dump.
#[derive(Debug)]
pub struct Check {
    pub enabled: bool,
    /// Whether a sequence number should be consumed.
    pub consumes_sequence_no: bool,
    /// A counter that should be incremented.
    pub counter: Option<&'static str>,
}

/// Decides whether a message should be dumped. `check` is `None` outside the
/// actor system.
pub fn enabled(check: Option<CheckResult>) -> (res: Check)
    ensures
        res.enabled == (check == Some(CheckResult::Passed)),
        res.consumes_sequence_no == (check == Some(CheckResult::Limited)),
        match res.counter {
            Some(name) => check == Some(CheckResult::Limited) && name@ == "elfo_limited_dumps_total"@,
            None => check != Some(CheckResult::Limited),
        },
{
    match check {
        Some(CheckResult::Passed) => Check {
            enabled: true,
            consumes_sequence_no: false,
            counter: None,
        },
        Some(CheckResult::NotInterested) => Check {
            enabled: false,
            consumes_sequence_no: false,
            counter: None,
        },
        // Consume a sequence number to create a detectable gap.
        Some(CheckResult::Limited) => Check {
            enabled: false,
            consumes_sequence_no: true,
            counter: Some("elfo_limited_dumps_total"),
        },
        None => Check { enabled: false, consumes_sequence_no: false, counter: None },
    }
}

/// Records a dump, returns a counter that should be incremented.
pub fn record<D>(registry: &mut DumpRegistry<D>, shard_no: ShardNo, dump: D) -> (counter:
    &'static str)
    requires
        old(registry).wf(),
        shard_no < old(registry).shards.len(),
        old(registry).fund.part_count < usize::MAX,
    ensures
        counter@ == "elfo_emitted_dumps_total"@,
        final(registry).wf(),
        old(registry).is_added(*final(registry), shard_no as int, dump),
        forall|i: int|
            0 <= i < old(registry).shards.len() ==> #[trigger] final(registry).contents(i) == (
            if i == shard_no {
                old(registry).contents(i).push(dump)
            } else {
                old(registry).contents(i)
            }).skip(
                if old(registry).fills_part(shard_no as int) {
                    old(registry).lost(i)
                } else {
                    0
                },
            ),
{
    registry.add(shard_no, dump);
    "elfo_emitted_dumps_total"
}

// === Laws ===

/// A message is dumped iff it's allowed. A dump over the limit leaves a gap in sequence
/// numbers and is counted, one that nobody is interested in leaves no trace.
pub proof fn limited_dumps_leave_gap(check: Option<CheckResult>, res: Check)
    requires
        call_ensures(enabled, (check,), res),
    ensures
        res.enabled <==> check == Some(CheckResult::Passed),
        res.consumes_sequence_no <==> check == Some(CheckResult::Limited),
        res.counter is Some <==> check == Some(CheckResult::Limited),
        res.counter is Some ==> res.counter->0@ == "elfo_limited_dumps_total"@,
{
}

/// A recorded dump is added to the registry exactly as it's given, and it's counted.
pub proof fn recorded_dump_is_added<D>(
    a: &mut DumpRegistry<D>,
    b: &mut DumpRegistry<D>,
    shard_no: ShardNo,
    dump: D,
    counter: &str,
)
    requires
        *old(a) == *old(b),
        shard_no < old(a).shards@.len(),
        call_ensures(record, (a, shard_no, dump), counter),
        call_ensures(DumpRegistry::<D>::add, (b, shard_no, dump), ()),
    ensures
        counter@ == "elfo_emitted_dumps_total"@,
        final(a).fund.queues() == final(b).fund.queues(),
        final(a).shards@.len() == final(b).shards@.len(),
        final(a).shards@[shard_no as int].items@ == final(b).shards@[shard_no as int].items@,
        final(a).class == final(b).class,
{
}

} // verus!
