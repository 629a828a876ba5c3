use vstd::prelude::*;

use super::config::LogLevel;
use super::dump_buffer::{AppendError, Appended};
use super::rule_set::DumpParams;
use crate::logging::Level;
use crate::time::Nanos;

verus! {

// === InfoMap ===

/// What a report is about: a protocol, a name of a message, and whether dumps
/// are truncated.
pub type InfoKey = (Seq<char>, Seq<char>, bool);

/// How many dumps have the same problem.
#[derive(Debug)]
pub struct Info<E> {
    pub protocol: String,
    pub name: String,
    pub truncated: bool,
    pub level: Level,
    pub count: usize,
    pub details: E,
}

impl<E> Info<E> {
    pub open spec fn key(&self) -> InfoKey {
        (self.protocol@, self.name@, self.truncated)
    }
}

/// A problem as a value.
pub struct InfoView<E> {
    pub level: Level,
    pub count: nat,
    pub details: E,
}

/// Problems of dumps. Every problem is here at most once.
#[derive(Debug)]
pub struct InfoMap<E> {
    pub items: Vec<Info<E>>,
}

/// The map that is made up of the items.
pub open spec fn infos_of<E>(items: Seq<Info<E>>) -> Map<InfoKey, InfoView<E>>
    decreases items.len(),
{
    if items.len() == 0 {
        Map::empty()
    } else {
        let item = items.last();
        infos_of(items.drop_last()).insert(
            item.key(),
            InfoView { level: item.level, count: item.count as nat, details: item.details },
        )
    }
}

/// The map with one more item: the level is replaced, counters are summed up,
/// details are of the first problem.
pub open spec fn with_info<E>(
    map: Map<InfoKey, InfoView<E>>,
    key: InfoKey,
    info: InfoView<E>,
) -> Map<InfoKey, InfoView<E>> {
    if map.dom().contains(key) {
        map.insert(
            key,
            InfoView {
                level: info.level,
                count: map[key].count + info.count,
                details: map[key].details,
            },
        )
    } else {
        map.insert(key, info)
    }
}

/// Both maps together.
pub open spec fn merged<E>(
    map: Map<InfoKey, InfoView<E>>,
    other: Map<InfoKey, InfoView<E>>,
) -> Map<InfoKey, InfoView<E>> {
    Map::new(
        |key: InfoKey| map.dom().contains(key) || other.dom().contains(key),
        |key: InfoKey|
            if !other.dom().contains(key) {
                map[key]
            } else {
                with_info(map, key, other[key])[key]
            },
    )
}

/// Whether counters don't overflow.
pub open spec fn fits<E>(
    map: Map<InfoKey, InfoView<E>>,
    other: Map<InfoKey, InfoView<E>>,
) -> bool {
    forall|key: InfoKey| #[trigger]
        map.dom().contains(key) && other.dom().contains(key) ==> map[key].count + other[key].count
            <= usize::MAX
}

impl<E> View for InfoMap<E> {
    type V = Map<InfoKey, InfoView<E>>;

    open spec fn view(&self) -> Map<InfoKey, InfoView<E>> {
        infos_of(self.items@)
    }
}

pub open spec fn no_duplicates<E>(items: Seq<Info<E>>) -> bool {
    forall|i: int, j: int|
        0 <= i < j < items.len() ==> (#[trigger] items[i]).key() != (#[trigger] items[j]).key()
}

proof fn lemma_infos<E>(items: Seq<Info<E>>)
    requires
        no_duplicates(items),
    ensures
        forall|i: int|
            0 <= i < items.len() ==> infos_of(items).dom().contains((#[trigger] items[i]).key())
                && infos_of(items)[items[i].key()] == (InfoView {
                level: items[i].level,
                count: items[i].count as nat,
                details: items[i].details,
            }),
        forall|key: InfoKey| #[trigger]
            infos_of(items).dom().contains(key) ==> exists|i: int|
                0 <= i < items.len() && (#[trigger] items[i]).key() == key,
    decreases items.len(),
{
    if items.len() > 0 {
        let rest = items.drop_last();
        assert forall|i: int, j: int| 0 <= i < j < rest.len() implies (#[trigger] rest[i]).key() != (
        #[trigger] rest[j]).key() by {
            assert(items[i].key() != items[j].key());
        }
        lemma_infos(rest);
        assert forall|i: int| 0 <= i < items.len() implies infos_of(items).dom().contains(
            (#[trigger] items[i]).key(),
        ) && infos_of(items)[items[i].key()] == (InfoView {
            level: items[i].level,
            count: items[i].count as nat,
            details: items[i].details,
        }) by {
            if i < rest.len() {
                assert(rest[i] == items[i]);
                assert(items[i].key() != items[items.len() - 1].key());
            }
        }
        assert forall|key: InfoKey| #[trigger] infos_of(items).dom().contains(key) implies exists|
            i: int,
        |
            0 <= i < items.len() && (#[trigger] items[i]).key() == key by {
            if key == items.last().key() {
                assert(items[items.len() - 1].key() == key);
            } else {
                assert(infos_of(rest).dom().contains(key));
                let i = choose|i: int| 0 <= i < rest.len() && (#[trigger] rest[i]).key() == key;
                assert(items[i].key() == key);
            }
        }
    }
}

proof fn lemma_infos_update<E>(items: Seq<Info<E>>, i: int, item: Info<E>)
    requires
        no_duplicates(items),
        0 <= i < items.len(),
        item.key() == items[i].key(),
    ensures
        no_duplicates(items.update(i, item)),
        infos_of(items.update(i, item)) == infos_of(items).insert(
            item.key(),
            InfoView { level: item.level, count: item.count as nat, details: item.details },
        ),
{
    let next = items.update(i, item);
    assert forall|a: int, b: int| 0 <= a < b < next.len() implies (#[trigger] next[a]).key() != (
    #[trigger] next[b]).key() by {
        assert(items[a].key() != items[b].key());
    }
    lemma_infos(items);
    lemma_infos(next);
    let expected = infos_of(items).insert(
        item.key(),
        InfoView { level: item.level, count: item.count as nat, details: item.details },
    );
    assert forall|key: InfoKey| infos_of(next).dom().contains(key) == #[trigger] expected.dom().contains(
        key,
    ) by {
        if infos_of(next).dom().contains(key) {
            let k = choose|k: int| 0 <= k < next.len() && (#[trigger] next[k]).key() == key;
            assert(infos_of(items).dom().contains(items[k].key()));
        }
        if infos_of(items).dom().contains(key) {
            let k = choose|k: int| 0 <= k < items.len() && (#[trigger] items[k]).key() == key;
            assert(infos_of(next).dom().contains(next[k].key()));
        }
        if key == item.key() {
            assert(infos_of(next).dom().contains(next[i].key()));
        }
    }
    assert forall|key: InfoKey| #[trigger] expected.dom().contains(key) implies infos_of(next)[key]
        == expected[key] by {
        assert(infos_of(next).dom().contains(key));
        let k = choose|k: int| 0 <= k < next.len() && (#[trigger] next[k]).key() == key;
        if k != i {
            assert(items[k].key() == key);
            if key == item.key() {
                assert(items[i].key() == items[k].key());
            }
        }
    }
    assert(infos_of(next) =~= expected);
}

impl<E> InfoMap<E> {
    pub open spec fn wf(&self) -> bool {
        no_duplicates(self.items@)
    }

    pub fn new() -> (this: InfoMap<E>)
        ensures
            this.wf(),
            this@ == Map::<InfoKey, InfoView<E>>::empty(),
            this.items.len() == 0,
    {
        InfoMap { items: Vec::new() }
    }

    pub fn is_empty(&self) -> (res: bool)
        requires
            self.wf(),
        ensures
            res == (self@ == Map::<InfoKey, InfoView<E>>::empty()),
    {
        proof {
            lemma_infos(self.items@);
            if self.items.len() > 0 {
                assert(self@.dom().contains(self.items[0].key()));
            }
        }
        self.items.len() == 0
    }

    /// Adds one more problem.
    pub fn add(&mut self, info: Info<E>)
        requires
            old(self).wf(),
            old(self)@.dom().contains(info.key()) ==> old(self)@[info.key()].count + info.count
                <= usize::MAX,
        ensures
            final(self).wf(),
            final(self)@ == with_info(
                old(self)@,
                info.key(),
                InfoView { level: info.level, count: info.count as nat, details: info.details },
            ),
    {
        let mut i: usize = 0;
        let ghost before = self.items@;
        proof {
            lemma_infos(before);
        }
        while i < self.items.len()
            invariant
                i <= self.items.len(),
                self.items@ == before,
                before == old(self).items@,
                no_duplicates(before),
                infos_of(before).dom().contains(info.key()) ==> infos_of(before)[info.key()].count
                    + info.count <= usize::MAX,
                forall|k: int| 0 <= k < i ==> (#[trigger] before[k]).key() != info.key(),
            decreases self.items.len() - i,
        {
            let item = &self.items[i];
            let is_same = item.protocol == info.protocol && item.name == info.name && item.truncated
                == info.truncated;
            if is_same {
                proof {
                    lemma_infos(before);
                    assert(before[i as int].key() == info.key());
                }
                let count: usize = item.count + info.count;
                self.items[i].level = info.level;
                self.items[i].count = count;
                proof {
                    let item = self.items@[i as int];
                    assert(self.items@ =~= before.update(i as int, item));
                    lemma_infos_update(before, i as int, item);
                }
                return ;
            }
            i += 1;
        }
        proof {
            assert(!infos_of(before).dom().contains(info.key())) by {
                lemma_infos(before);
                if infos_of(before).dom().contains(info.key()) {
                    let k = choose|k: int|
                        0 <= k < before.len() && (#[trigger] before[k]).key() == info.key();
                    assert(before[k].key() != info.key());
                }
            }
        }
        self.items.push(info);
        proof {
            assert(self.items@.drop_last() =~= before);
            assert forall|a: int, b: int| 0 <= a < b < self.items.len() implies (
            #[trigger] self.items@[a]).key() != (#[trigger] self.items@[b]).key() by {
                assert(before[a] == self.items@[a]);
                if b < before.len() {
                    assert(before[b] == self.items@[b]);
                    assert(before[a].key() != before[b].key());
                }
            }
        }
    }

    /// Adds all problems of another map.
    pub fn merge(&mut self, another: InfoMap<E>)
        requires
            old(self).wf(),
            another.wf(),
            fits(old(self)@, another@),
        ensures
            final(self).wf(),
            final(self)@ == merged(old(self)@, another@),
    {
        let ghost all = another.items@;
        let ghost before = self@;
        proof {
            lemma_infos(all);
            assert(all.take(0) =~= Seq::empty());
            assert(infos_of(all.take(0)) =~= Map::empty());
            assert(merged(before, infos_of(all.take(0))) =~= before);
        }
        for info in iter: another.items
            invariant
                iter.seq() == all,
                self.wf(),
                no_duplicates(all),
                fits(before, infos_of(all)),
                self@ == merged(before, infos_of(all.take(iter.index()))),
        {
            let ghost i = iter.index();
            let ghost done = infos_of(all.take(i));
            proof {
                lemma_take(all, i);
                lemma_infos(all);
                lemma_infos(all.take(i));
                assert(all.take(i + 1).drop_last() =~= all.take(i));
                assert(all.take(i + 1).last() == info);
                assert(!done.dom().contains(info.key())) by {
                    if done.dom().contains(info.key()) {
                        let k = choose|k: int|
                            0 <= k < all.take(i).len() && (#[trigger] all.take(i)[k]).key()
                                == info.key();
                        assert(all[k].key() != all[i].key());
                    }
                }
                assert(infos_of(all).dom().contains(all[i].key()));
                if self@.dom().contains(info.key()) {
                    assert(before.dom().contains(info.key()));
                    assert(self@[info.key()] == before[info.key()]);
                }
            }
            let ghost key = info.key();
            let ghost view = InfoView {
                level: info.level,
                count: info.count as nat,
                details: info.details,
            };
            self.add(info);
            proof {
                let next = infos_of(all.take(i + 1));
                assert(next == done.insert(key, view));
                assert(self@ =~= merged(before, next));
            }
        }
        assert(all.take(all.len() as int) =~= all);
    }
}

proof fn lemma_take<E>(items: Seq<Info<E>>, i: int)
    requires
        no_duplicates(items),
        0 <= i <= items.len(),
    ensures
        no_duplicates(items.take(i)),
{
    let part = items.take(i);
    assert forall|a: int, b: int| 0 <= a < b < part.len() implies (#[trigger] part[a]).key() != (
    #[trigger] part[b]).key() by {
        assert(items[a].key() != items[b].key());
    }
}

// === Report ===

/// What has happened while dumping.
#[derive(Debug)]
pub struct Report {
    pub appended: usize,
    pub failed: InfoMap<serde_json::Error>,
    pub overflow: InfoMap<()>,
}

/// Whether one more dump with the key can be counted.
pub open spec fn has_room<E>(infos: Map<InfoKey, InfoView<E>>, key: InfoKey) -> bool {
    infos.dom().contains(key) ==> infos[key].count < usize::MAX
}

/// Whether a dump that is too big has been truncated, `None` if it isn't too big.
pub open spec fn overflow_of(res: Result<Appended, AppendError>) -> Option<bool> {
    match res {
        Ok(appended) => if appended.is_truncated {
            Some(true)
        } else {
            None
        },
        Err(AppendError::LimitExceeded(_)) => Some(false),
        Err(AppendError::SerializationFailed(_)) => None,
    }
}

impl Report {
    pub open spec fn wf(&self) -> bool {
        self.failed.wf() && self.overflow.wf()
    }

    pub open spec fn is_empty(&self) -> bool {
        &&& self.appended == 0
        &&& self.failed@ == Map::<InfoKey, InfoView<serde_json::Error>>::empty()
        &&& self.overflow@ == Map::<InfoKey, InfoView<()>>::empty()
    }

    pub fn new() -> (this: Report)
        ensures
            this.wf(),
            this.is_empty(),
    {
        Report { appended: 0, failed: InfoMap::new(), overflow: InfoMap::new() }
    }

    /// A message cannot be serialized. Nothing is reported if the level is off.
    pub fn add_failed(
        &mut self,
        protocol: &str,
        name: &str,
        error: serde_json::Error,
        params: &DumpParams,
    )
        requires
            old(self).wf(),
            old(self).failed@.dom().contains((protocol@, name@, false)) ==> old(self).failed@[(protocol@, name@, false)].count < usize::MAX,
        ensures
            final(self).wf(),
            final(self).appended == old(self).appended,
            final(self).overflow == old(self).overflow,
            match params.log_on_failure.spec_into_level() {
                Some(level) => final(self).failed@ == with_info(
                    old(self).failed@,
                    (protocol@, name@, false),
                    InfoView { level, count: 1, details: error },
                ),
                None => final(self).failed == old(self).failed,
            },
    {
        let level = match params.log_on_failure.into_level() {
            Some(level) => level,
            None => return ,
        };
        self.failed.add(
            Info {
                protocol: protocol.to_owned(),
                name: name.to_owned(),
                truncated: false,
                level,
                count: 1,
                details: error,
            },
        );
    }

    /// A dump is too big. Nothing is reported if the level is off.
    pub fn add_overflow(&mut self, protocol: &str, name: &str, truncated: bool, params: &DumpParams)
        requires
            old(self).wf(),
            old(self).overflow@.dom().contains((protocol@, name@, truncated)) ==> old(self).overflow@[(protocol@, name@, truncated)].count < usize::MAX,
        ensures
            final(self).wf(),
            final(self).appended == old(self).appended,
            final(self).failed == old(self).failed,
            match params.log_on_overflow.spec_into_level() {
                Some(level) => final(self).overflow@ == with_info(
                    old(self).overflow@,
                    (protocol@, name@, truncated),
                    InfoView { level, count: 1, details: () },
                ),
                None => final(self).overflow == old(self).overflow,
            },
    {
        let level = match params.log_on_overflow.into_level() {
            Some(level) => level,
            None => return ,
        };
        self.overflow.add(
            Info {
                protocol: protocol.to_owned(),
                name: name.to_owned(),
                truncated,
                level,
                count: 1,
                details: (),
            },
        );
    }

    /// Whether one more dump can be counted.
    pub open spec fn can_account(&self, protocol: Seq<char>, name: Seq<char>) -> bool {
        &&& self.appended < usize::MAX
        &&& has_room(self.failed@, (protocol, name, false))
        &&& has_room(self.overflow@, (protocol, name, false))
        &&& has_room(self.overflow@, (protocol, name, true))
    }

    /// Counts a dump that has been appended or not. Returns whether the chunk
    /// must be written.
    pub fn account(
        &mut self,
        protocol: &str,
        name: &str,
        res: Result<Appended, AppendError>,
        params: &DumpParams,
    ) -> (is_ready: bool)
        requires
            old(self).wf(),
            old(self).can_account(protocol@, name@),
        ensures
            final(self).wf(),
            is_ready == (res matches Ok(appended) && appended.is_ready),
            final(self).appended == (if res is Ok {
                (old(self).appended + 1) as usize
            } else {
                old(self).appended
            }),
            final(self).failed@ == (match (res, params.log_on_failure.spec_into_level()) {
                (Err(AppendError::SerializationFailed(error)), Some(level)) => with_info(
                    old(self).failed@,
                    (protocol@, name@, false),
                    InfoView { level, count: 1, details: error },
                ),
                _ => old(self).failed@,
            }),
            final(self).overflow@ == (match (
                overflow_of(res),
                params.log_on_overflow.spec_into_level(),
            ) {
                (Some(truncated), Some(level)) => with_info(
                    old(self).overflow@,
                    (protocol@, name@, truncated),
                    InfoView { level, count: 1, details: () },
                ),
                _ => old(self).overflow@,
            }),
    {
        match res {
            Ok(appended) => {
                self.appended += 1;
                if appended.is_truncated {
                    self.add_overflow(protocol, name, true, params);
                }
                appended.is_ready
            },
            Err(AppendError::LimitExceeded(_)) => {
                self.add_overflow(protocol, name, false, params);
                false
            },
            Err(AppendError::SerializationFailed(error)) => {
                self.add_failed(protocol, name, error, params);
                false
            },
        }
    }

    /// Whether counters of both reports can be summed up.
    pub open spec fn can_merge(&self, another: Report) -> bool {
        &&& self.appended + another.appended <= usize::MAX
        &&& fits(self.failed@, another.failed@)
        &&& fits(self.overflow@, another.overflow@)
    }

    pub fn merge(&mut self, another: Report)
        requires
            old(self).wf(),
            another.wf(),
            old(self).can_merge(another),
        ensures
            final(self).wf(),
            final(self).appended == old(self).appended + another.appended,
            final(self).failed@ == merged(old(self).failed@, another.failed@),
            final(self).overflow@ == merged(old(self).overflow@, another.overflow@),
    {
        self.appended = self.appended + another.appended;
        self.failed.merge(another.failed);
        self.overflow.merge(another.overflow);
    }
}

// === Reporter ===

/// Throttles reports.
#[derive(Debug)]
pub struct Reporter {
    pub report: Report,
    pub last_report_time: Option<Nanos>,
    pub log_cooldown: Nanos,
}

/// What must be emitted.
#[derive(Debug)]
pub struct Emitted {
    /// How much the counter of written dumps is increased.
    pub appended: usize,
    /// What must be logged.
    pub logged: Option<Report>,
}

impl Reporter {
    pub fn new(log_cooldown: Nanos) -> (this: Reporter)
        ensures
            this.report.wf(),
            this.report.is_empty(),
            this.last_report_time is None,
            this.log_cooldown == log_cooldown,
    {
        Reporter { report: Report::new(), last_report_time: None, log_cooldown }
    }

    pub fn configure(&mut self, log_cooldown: Nanos)
        ensures
            final(self).log_cooldown == log_cooldown,
            final(self).report == old(self).report,
            final(self).last_report_time == old(self).last_report_time,
    {
        self.log_cooldown = log_cooldown;
    }

    /// Adds a report and emits everything that can be emitted right now.
    pub fn add(&mut self, report: Report, now: Nanos) -> (emitted: Emitted)
        requires
            old(self).report.wf(),
            report.wf(),
            old(self).report.can_merge(report),
        ensures
            final(self).report.wf(),
            final(self).log_cooldown == old(self).log_cooldown,
            emitted.appended == old(self).report.appended + report.appended,
            ({
                let failed = merged(old(self).report.failed@, report.failed@);
                let overflow = merged(old(self).report.overflow@, report.overflow@);
                if old(self).is_time_to_log(failed, overflow, now) {
                    &&& emitted.logged matches Some(logged) && logged.failed@ == failed
                        && logged.overflow@ == overflow
                    &&& final(self).report.is_empty()
                    &&& final(self).last_report_time == Some(now)
                } else {
                    &&& emitted.logged is None
                    &&& final(self).report.failed@ == failed
                    &&& final(self).report.overflow@ == overflow
                    &&& final(self).report.appended == 0
                    &&& final(self).last_report_time == old(self).last_report_time
                }
            }),
    {
        self.report.merge(report);
        self.emit(false, now)
    }

    /// Whether problems must be logged: there are ones and the last report was
    /// long enough ago.
    pub open spec fn is_time_to_log(
        &self,
        failed: Map<InfoKey, InfoView<serde_json::Error>>,
        overflow: Map<InfoKey, InfoView<()>>,
        now: Nanos,
    ) -> bool {
        &&& failed != Map::<InfoKey, InfoView<serde_json::Error>>::empty() || overflow != Map::<
            InfoKey,
            InfoView<()>,
        >::empty()
        &&& self.last_report_time matches Some(time) ==> elapsed(time, now) >= self.log_cooldown
    }

    /// Emits metrics immediately and logs if it's time, or if it's forced (it's
    /// the last chance to emit).
    pub fn emit(&mut self, force: bool, now: Nanos) -> (emitted: Emitted)
        requires
            old(self).report.wf(),
        ensures
            final(self).report.wf(),
            final(self).log_cooldown == old(self).log_cooldown,
            emitted.appended == old(self).report.appended,
            if force || old(self).is_time_to_log(
                old(self).report.failed@,
                old(self).report.overflow@,
                now,
            ) {
                &&& emitted.logged matches Some(logged) && logged.failed == old(self).report.failed
                    && logged.overflow == old(self).report.overflow
                &&& final(self).report.is_empty()
                &&& final(self).last_report_time == Some(now)
            } else {
                &&& emitted.logged is None
                &&& final(self).report.failed == old(self).report.failed
                &&& final(self).report.overflow == old(self).report.overflow
                &&& final(self).report.appended == 0
                &&& final(self).last_report_time == old(self).last_report_time
            },
    {
        // Emit metrics immediately, they are combined by the telemetry system.
        let appended: usize = self.report.appended;
        self.report.appended = 0;

        // Throttle logs to produce less noise.
        if !(force || self.should_log(now)) {
            return Emitted { appended, logged: None };
        }

        let mut report = Report::new();
        std::mem::swap(&mut self.report, &mut report);
        self.last_report_time = Some(now);
        Emitted { appended, logged: Some(report) }
    }

    fn should_log(&self, now: Nanos) -> (res: bool)
        requires
            self.report.wf(),
        ensures
            res == self.is_time_to_log(self.report.failed@, self.report.overflow@, now),
    {
        if self.report.failed.is_empty() && self.report.overflow.is_empty() {
            return false;
        }

        match self.last_report_time {
            Some(time) => now.saturating_sub(time) >= self.log_cooldown,
            None => true,
        }
    }
}

/// How much time has passed, zero if the clock goes back.
pub open spec fn elapsed(since: Nanos, now: Nanos) -> int {
    if now >= since {
        now - since
    } else {
        0
    }
}

/// The text that is logged if a message cannot be serialized.
pub const FAILED_MESSAGE: &'static str = "cannot serialize message, skipped";

/// The text that is logged if a dump is too big.
pub fn overflow_message(truncated: bool) -> (res: &'static str)
    ensures
        res@ == (if truncated {
            "too big dump, truncated"@
        } else {
            "too big dump, skipped"@
        }),
{
    if truncated {
        "too big dump, truncated"
    } else {
        "too big dump, skipped"
    }
}

// === Laws ===

/// No problem is lost and no one is counted twice.
pub proof fn merging_sums_up<E>(
    map: Map<InfoKey, InfoView<E>>,
    other: Map<InfoKey, InfoView<E>>,
    key: InfoKey,
)
    ensures
        merged(map, other).dom().contains(key) <==> map.dom().contains(key) || other.dom().contains(
            key,
        ),
        map.dom().contains(key) && other.dom().contains(key) ==> merged(map, other)[key].count
            == map[key].count + other[key].count,
        map.dom().contains(key) && !other.dom().contains(key) ==> merged(map, other)[key]
            == map[key],
        !map.dom().contains(key) && other.dom().contains(key) ==> merged(map, other)[key]
            == other[key],
{
}

/// Whether there is exactly such a problem among the items.
pub open spec fn has_problem<E>(
    items: Seq<Info<E>>,
    protocol: Seq<char>,
    name: Seq<char>,
    truncated: bool,
    level: Level,
    count: int,
    details: E,
) -> bool {
    exists|i: int|
        {
            &&& 0 <= i < items.len()
            &&& (#[trigger] items[i]).protocol@ == protocol
            &&& items[i].name@ == name
            &&& items[i].truncated == truncated
            &&& items[i].level == level
            &&& items[i].count == count
            &&& items[i].details == details
        }
}

proof fn lemma_has_problem<E>(items: Seq<Info<E>>, key: InfoKey)
    requires
        no_duplicates(items),
        infos_of(items).dom().contains(key),
    ensures
        has_problem(
            items,
            key.0,
            key.1,
            key.2,
            infos_of(items)[key].level,
            infos_of(items)[key].count as int,
            infos_of(items)[key].details,
        ),
{
    lemma_infos(items);
    let i = choose|i: int| 0 <= i < items.len() && (#[trigger] items[i]).key() == key;
    assert(items[i].protocol@ == key.0);
}

/// What a new problem adds to ones that are already there. The same problem of the
/// same message is counted, the level is of the last one and details are of the first
/// one. Other problems stay.
pub proof fn same_problems_are_counted<E>(
    map: &mut InfoMap<E>,
    info: Info<E>,
    i: int,
    j: int,
)
    requires
        old(map).wf(),
        call_ensures(InfoMap::<E>::add, (map, info), ()),
    ensures
        0 <= i < old(map).items@.len() && old(map).items@[i].protocol@ == info.protocol@
            && old(map).items@[i].name@ == info.name@ && old(map).items@[i].truncated
            == info.truncated ==> has_problem(
            final(map).items@,
            info.protocol@,
            info.name@,
            info.truncated,
            info.level,
            old(map).items@[i].count + info.count,
            old(map).items@[i].details,
        ),
        0 <= i < old(map).items@.len() && (old(map).items@[i].protocol@ != info.protocol@
            || old(map).items@[i].name@ != info.name@ || old(map).items@[i].truncated
            != info.truncated) ==> has_problem(
            final(map).items@,
            old(map).items@[i].protocol@,
            old(map).items@[i].name@,
            old(map).items@[i].truncated,
            old(map).items@[i].level,
            old(map).items@[i].count as int,
            old(map).items@[i].details,
        ),
        (forall|k: int|
            0 <= k < old(map).items@.len() ==> (#[trigger] old(map).items@[k]).protocol@
                != info.protocol@ || old(map).items@[k].name@ != info.name@
                || old(map).items@[k].truncated != info.truncated) ==> has_problem(
            final(map).items@,
            info.protocol@,
            info.name@,
            info.truncated,
            info.level,
            info.count as int,
            info.details,
        ),
        0 <= j < final(map).items@.len() && (final(map).items@[j].protocol@ != info.protocol@
            || final(map).items@[j].name@ != info.name@ || final(map).items@[j].truncated
            != info.truncated) ==> has_problem(
            old(map).items@,
            final(map).items@[j].protocol@,
            final(map).items@[j].name@,
            final(map).items@[j].truncated,
            final(map).items@[j].level,
            final(map).items@[j].count as int,
            final(map).items@[j].details,
        ),
{
    let a = old(map).items@;
    let b = final(map).items@;
    lemma_infos(a);
    lemma_infos(b);
    lemma_has_problem(b, info.key());
    if 0 <= i < a.len() {
        assert(infos_of(a).dom().contains(a[i].key()));
        lemma_has_problem(b, a[i].key());
    }
    if 0 <= j < b.len() && b[j].key() != info.key() {
        assert(infos_of(b).dom().contains(b[j].key()));
        lemma_has_problem(a, b[j].key());
    }
}

/// A map is empty iff there are no problems.
pub proof fn emptiness_is_told<E>(map: InfoMap<E>, fresh: InfoMap<E>, res: bool, first: bool)
    requires
        map.wf(),
        call_ensures(InfoMap::<E>::new, (), fresh),
        call_ensures(InfoMap::<E>::is_empty, (&map,), res),
        call_ensures(InfoMap::<E>::is_empty, (&fresh,), first),
    ensures
        res <==> map.items@.len() == 0,
        first && fresh.items@.len() == 0,
{
    lemma_infos(map.items@);
    if map.items@.len() > 0 {
        assert(infos_of(map.items@).dom().contains(map.items@[0].key()));
    }
}

/// A problem of both maps is counted in full, a problem of one of them stays.
pub proof fn merged_problems_are_counted<E>(
    map: &mut InfoMap<E>,
    another: InfoMap<E>,
    i: int,
    j: int,
)
    requires
        old(map).wf(),
        another.wf(),
        call_ensures(InfoMap::<E>::merge, (map, another), ()),
        0 <= i < old(map).items@.len(),
        0 <= j < another.items@.len(),
    ensures
        ({
            let a = old(map).items@[i];
            let b = another.items@[j];
            a.protocol@ == b.protocol@ && a.name@ == b.name@ && a.truncated == b.truncated
                ==> has_problem(
                final(map).items@,
                a.protocol@,
                a.name@,
                a.truncated,
                b.level,
                a.count + b.count,
                a.details,
            )
        }),
        ({
            let a = old(map).items@[i];
            (forall|k: int|
                0 <= k < another.items@.len() ==> (#[trigger] another.items@[k]).protocol@
                    != a.protocol@ || another.items@[k].name@ != a.name@
                    || another.items@[k].truncated != a.truncated) ==> has_problem(
                final(map).items@,
                a.protocol@,
                a.name@,
                a.truncated,
                a.level,
                a.count as int,
                a.details,
            )
        }),
        ({
            let b = another.items@[j];
            (forall|k: int|
                0 <= k < old(map).items@.len() ==> (#[trigger] old(map).items@[k]).protocol@
                    != b.protocol@ || old(map).items@[k].name@ != b.name@
                    || old(map).items@[k].truncated != b.truncated) ==> has_problem(
                final(map).items@,
                b.protocol@,
                b.name@,
                b.truncated,
                b.level,
                b.count as int,
                b.details,
            )
        }),
{
    let a = old(map).items@;
    let b = another.items@;
    lemma_infos(a);
    lemma_infos(b);
    assert(infos_of(a).dom().contains(a[i].key()));
    assert(infos_of(b).dom().contains(b[j].key()));
    lemma_has_problem(final(map).items@, a[i].key());
    lemma_has_problem(final(map).items@, b[j].key());
}

/// Every dump is counted exactly once: either as written or as a problem. A truncated
/// one is both. Problems are counted only if they should be logged.
pub proof fn every_dump_is_accounted(
    report: &mut Report,
    protocol: &str,
    name: &str,
    res: Result<Appended, AppendError>,
    params: DumpParams,
    is_ready: bool,
    on_failure: Option<Level>,
    on_overflow: Option<Level>,
)
    requires
        old(report).can_account(protocol@, name@),
        call_ensures(Report::account, (report, protocol, name, res, &params), is_ready),
        call_ensures(LogLevel::into_level, (params.log_on_failure,), on_failure),
        call_ensures(LogLevel::into_level, (params.log_on_overflow,), on_overflow),
    ensures
        is_ready <==> res is Ok && res->Ok_0.is_ready,
        final(report).appended == old(report).appended + (if res is Ok {
            1int
        } else {
            0
        }),
        res is Ok && !res->Ok_0.is_truncated ==> {
            &&& final(report).failed@ == old(report).failed@
            &&& final(report).overflow@ == old(report).overflow@
        },
        res is Ok && res->Ok_0.is_truncated ==> {
            &&& final(report).failed@ == old(report).failed@
            &&& is_counted(
                old(report).overflow@,
                final(report).overflow@,
                (protocol@, name@, true),
                on_overflow,
                (),
            )
        },
        res matches Err(AppendError::LimitExceeded(_)) ==> {
            &&& final(report).failed@ == old(report).failed@
            &&& is_counted(
                old(report).overflow@,
                final(report).overflow@,
                (protocol@, name@, false),
                on_overflow,
                (),
            )
        },
        res matches Err(AppendError::SerializationFailed(error)) ==> {
            &&& final(report).overflow@ == old(report).overflow@
            &&& is_counted(
                old(report).failed@,
                final(report).failed@,
                (protocol@, name@, false),
                on_failure,
                error,
            )
        },
{
    if on_overflow is Some {
        lemma_counted(old(report).overflow@, (protocol@, name@, true), on_overflow->0, ());
        lemma_counted(old(report).overflow@, (protocol@, name@, false), on_overflow->0, ());
    }
    if let Err(AppendError::SerializationFailed(error)) = res {
        if on_failure is Some {
            lemma_counted(old(report).failed@, (protocol@, name@, false), on_failure->0, error);
        }
    }
}

/// Whether one more problem is counted, if it has a level.
pub open spec fn is_counted<E>(
    before: Map<InfoKey, InfoView<E>>,
    after: Map<InfoKey, InfoView<E>>,
    key: InfoKey,
    level: Option<Level>,
    details: E,
) -> bool {
    match level {
        None => after == before,
        Some(level) => {
            &&& after.dom() == before.dom().insert(key)
            &&& after.remove(key) == before.remove(key)
            &&& after[key].level == level
            &&& before.dom().contains(key) ==> after[key].count == before[key].count + 1
                && after[key].details == before[key].details
            &&& !before.dom().contains(key) ==> after[key].count == 1 && after[key].details
                == details
        },
    }
}

proof fn lemma_counted<E>(
    before: Map<InfoKey, InfoView<E>>,
    key: InfoKey,
    level: Level,
    details: E,
)
    ensures
        is_counted(
            before,
            with_info(before, key, InfoView { level, count: 1, details }),
            key,
            Some(level),
            details,
        ),
{
    let after = with_info(before, key, InfoView { level, count: 1, details });
    assert(after.dom() =~= before.dom().insert(key));
    assert(after.remove(key) =~= before.remove(key));
}

/// Problems are counted separately: failures among failures, and too big dumps among
/// overflows.
pub proof fn problems_are_counted_apart(
    a: &mut Report,
    b: &mut Report,
    protocol: &str,
    name: &str,
    error: serde_json::Error,
    truncated: bool,
    params: DumpParams,
    on_failure: Option<Level>,
    on_overflow: Option<Level>,
)
    requires
        call_ensures(Report::add_failed, (a, protocol, name, error, &params), ()),
        call_ensures(Report::add_overflow, (b, protocol, name, truncated, &params), ()),
        call_ensures(LogLevel::into_level, (params.log_on_failure,), on_failure),
        call_ensures(LogLevel::into_level, (params.log_on_overflow,), on_overflow),
    ensures
        final(a).appended == old(a).appended && final(a).overflow == old(a).overflow,
        is_counted(
            old(a).failed@,
            final(a).failed@,
            (protocol@, name@, false),
            on_failure,
            error,
        ),
        final(b).appended == old(b).appended && final(b).failed == old(b).failed,
        is_counted(
            old(b).overflow@,
            final(b).overflow@,
            (protocol@, name@, truncated),
            on_overflow,
            (),
        ),
{
    if on_failure is Some {
        lemma_counted(old(a).failed@, (protocol@, name@, false), on_failure->0, error);
    }
    if on_overflow is Some {
        lemma_counted(old(b).overflow@, (protocol@, name@, truncated), on_overflow->0, ());
    }
}

/// Written dumps of both reports are counted.
pub proof fn merged_reports_are_counted(
    report: &mut Report,
    another: Report,
    fresh: Report,
    key: InfoKey,
)
    requires
        call_ensures(Report::new, (), fresh),
        call_ensures(Report::merge, (report, another), ()),
    ensures
        fresh.appended == 0 && fresh.failed@.dom().len() == 0 && fresh.overflow@.dom().len() == 0,
        final(report).appended == old(report).appended + another.appended,
        final(report).failed@ == merged(old(report).failed@, another.failed@),
        final(report).overflow@ == merged(old(report).overflow@, another.overflow@),
{
}

/// When problems are logged: at once for the first time, then only if enough time has
/// passed since the last time, or if it's forced. What is logged isn't logged again,
/// what isn't stays.
pub proof fn reports_are_throttled(
    reporter: &mut Reporter,
    again: &mut Reporter,
    force: bool,
    now: Nanos,
    emitted: Emitted,
    second: Emitted,
)
    requires
        old(reporter).report.wf(),
        call_ensures(Reporter::emit, (reporter, force, now), emitted),
        *old(again) == *final(reporter),
        call_ensures(Reporter::emit, (again, false, now), second),
    ensures
        ({
            let before = old(reporter);
            let has_problems = before.report.failed.items@.len() > 0
                || before.report.overflow.items@.len() > 0;
            let is_time = before.last_report_time is None || before.last_report_time->0
                + before.log_cooldown <= now || before.log_cooldown == 0;
            &&& emitted.logged is Some <==> force || has_problems && is_time
            &&& emitted.appended == before.report.appended
            &&& second.appended == 0
            &&& emitted.logged is Some ==> {
                &&& emitted.logged->0.failed == before.report.failed
                &&& emitted.logged->0.overflow == before.report.overflow
                &&& final(reporter).last_report_time == Some(now)
                &&& final(reporter).report.failed.items@.len() == 0
                &&& final(reporter).report.overflow.items@.len() == 0
                &&& second.logged is None
            }
            &&& emitted.logged is None ==> {
                &&& final(reporter).report.failed == before.report.failed
                &&& final(reporter).report.overflow == before.report.overflow
                &&& final(reporter).last_report_time == before.last_report_time
            }
            &&& final(reporter).log_cooldown == before.log_cooldown
        }),
{
    lemma_empty(old(reporter).report.failed);
    lemma_empty(old(reporter).report.overflow);
    lemma_empty(final(reporter).report.failed);
    lemma_empty(final(reporter).report.overflow);
}

proof fn lemma_empty<E>(map: InfoMap<E>)
    requires
        map.wf(),
    ensures
        map@ == Map::<InfoKey, InfoView<E>>::empty() <==> map.items@.len() == 0,
{
    lemma_infos(map.items@);
    if map.items@.len() > 0 {
        assert(map@.dom().contains(map.items@[0].key()));
    }
}

/// A report is added to what isn't logged yet, and then everything is emitted that
/// can be emitted.
pub proof fn added_reports_are_emitted(
    reporter: &mut Reporter,
    merging: &mut Report,
    merged_reporter: &mut Reporter,
    report: Report,
    now: Nanos,
    emitted: Emitted,
    expected: Emitted,
)
    requires
        call_ensures(Reporter::add, (reporter, report, now), emitted),
        *old(merging) == old(reporter).report,
        call_ensures(Report::merge, (merging, report), ()),
        old(merged_reporter).report == *final(merging),
        old(merged_reporter).last_report_time == old(reporter).last_report_time,
        old(merged_reporter).log_cooldown == old(reporter).log_cooldown,
        call_ensures(Reporter::emit, (merged_reporter, false, now), expected),
    ensures
        emitted.appended == expected.appended,
        emitted.logged is Some <==> expected.logged is Some,
        emitted.logged is Some ==> emitted.logged->0.failed@ == expected.logged->0.failed@
            && emitted.logged->0.overflow@ == expected.logged->0.overflow@,
        final(reporter).last_report_time == final(merged_reporter).last_report_time,
        final(reporter).log_cooldown == old(reporter).log_cooldown,
        final(reporter).report.appended == 0,
        final(reporter).report.failed@ == final(merged_reporter).report.failed@,
        final(reporter).report.overflow@ == final(merged_reporter).report.overflow@,
{
}

/// A new reporter has nothing to report, and only the cooldown can be changed.
pub proof fn reporter_is_configured(
    log_cooldown: Nanos,
    fresh: Reporter,
    reporter: &mut Reporter,
)
    requires
        call_ensures(Reporter::new, (log_cooldown,), fresh),
        call_ensures(Reporter::configure, (reporter, log_cooldown), ()),
    ensures
        fresh.log_cooldown == log_cooldown && fresh.last_report_time is None,
        fresh.report.appended == 0,
        fresh.report.failed.items@.len() == 0 && fresh.report.overflow.items@.len() == 0,
        final(reporter).log_cooldown == log_cooldown,
        final(reporter).report == old(reporter).report,
        final(reporter).last_report_time == old(reporter).last_report_time,
{
    lemma_empty(fresh.report.failed);
    lemma_empty(fresh.report.overflow);
}

/// Texts tell whether a dump is lost.
pub proof fn overflows_are_described(truncated: &str, skipped: &str)
    requires
        call_ensures(overflow_message, (true,), truncated),
        call_ensures(overflow_message, (false,), skipped),
    ensures
        truncated@ == "too big dump, truncated"@,
        skipped@ == "too big dump, skipped"@,
{
}

} // verus!
