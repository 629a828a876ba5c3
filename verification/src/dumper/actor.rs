use vstd::prelude::*;

use super::config::Config;
use super::dump::internal_class;
use crate::restarting::restart_policy::DEFAULT_FACTOR;
use crate::restarting::{RestartMode, RestartParams, RestartPolicy};
use crate::routers::Outcome;
use crate::time::Nanos;

verus! {

/// `5s`.
pub const MIN_BACKOFF: u128 = 5_000_000_000;

/// `30s`.
pub const MAX_BACKOFF: u128 = 30_000_000_000;

/// A message that is routed among dumpers.
#[derive(Debug)]
pub enum Routed {
    UpdateConfig,
    StartDumperForClass(String),
    Other,
}

/// What must be done by a dumper, in order.
#[derive(Debug)]
pub enum Action {
    /// Open the file if it isn't opened or if it's forced.
    Open { path: String, force: bool },
    StartInterval(Nanos),
    SetPeriod(Nanos),
    /// Apply rules of the config.
    ConfigureRules,
    /// Change the cooldown of logs.
    ConfigureReporter(Nanos),
    /// Change the capacity of registries.
    ConfigureStorage(usize),
    /// Write collected dumps to the file, no longer than the timeout.
    WriteDumps { path: String, timeout: Nanos },
}

/// What a dumper does after dumps are written.
#[derive(Debug)]
pub enum AfterTick {
    /// Synchronize the file and stop.
    Sync { path: String },
    /// Start dumpers of new classes.
    Spawn(Vec<String>),
}

/// The dumper of the internal class starts other dumpers.
#[derive(Debug)]
pub struct Manager {
    pub known_classes: Vec<String>,
}

/// A dumper of some class.
#[derive(Debug)]
pub struct Dumper {
    pub class: String,
    /// The path to the dump file that is used now.
    pub path: String,
    pub need_to_terminate: bool,
    /// Used only by the manager actor.
    pub manager: Option<Manager>,
}

/// Whether the class is in the list.
pub open spec fn has_class(classes: Seq<String>, class: Seq<char>) -> bool {
    exists|i: int| 0 <= i < classes.len() && (#[trigger] classes[i])@ == class
}

/// Classes that aren't known, in order.
pub open spec fn difference(classes: Seq<String>, known: Seq<String>) -> Seq<Seq<char>>
    decreases classes.len(),
{
    if classes.len() == 0 {
        Seq::empty()
    } else {
        let rest = difference(classes.drop_last(), known);
        if has_class(known, classes.last()@) {
            rest
        } else {
            rest.push(classes.last()@)
        }
    }
}

/// Texts of the list.
pub open spec fn texts(list: Seq<String>) -> Seq<Seq<char>> {
    list.map_values(|s: String| s@)
}

fn contains(classes: &Vec<String>, class: &String) -> (res: bool)
    ensures
        res == has_class(classes@, class@),
{
    let mut i: usize = 0;
    while i < classes.len()
        invariant
            i <= classes.len(),
            forall|k: int| 0 <= k < i ==> (#[trigger] classes[k])@ != class@,
        decreases classes.len() - i,
    {
        if classes[i] == *class {
            assert(classes[i as int]@ == class@);
            return true;
        }
        i += 1;
    }
    false
}

/// Makes a copy of the list.
pub fn collect_classes(list: &Vec<String>) -> (copy: Vec<String>)
    ensures
        texts(copy@) == texts(list@),
{
    let mut copy: Vec<String> = Vec::new();
    let mut i: usize = 0;
    while i < list.len()
        invariant
            i <= list.len(),
            copy.len() == i,
            forall|k: int| 0 <= k < i ==> (#[trigger] copy[k])@ == list[k]@,
        decreases list.len() - i,
    {
        copy.push(list[i].clone());
        i += 1;
    }
    assert(texts(copy@) =~= texts(list@));
    copy
}

impl Dumper {
    pub fn new(class: String) -> (this: Dumper)
        ensures
            this.class == class,
            this.path@.len() == 0,
            !this.need_to_terminate,
            match this.manager {
                Some(manager) => class@ == "internal"@ && texts(manager.known_classes@) == seq![
                    "internal"@,
                ],
                None => class@ != "internal"@,
            },
    {
        let manager = if class == internal_class().to_owned() {
            let mut known_classes: Vec<String> = Vec::new();
            known_classes.push(internal_class().to_owned());
            assert(texts(known_classes@) =~= seq!["internal"@]);
            Some(Manager { known_classes })
        } else {
            None
        };

        Dumper { class, path: String::new(), need_to_terminate: false, manager }
    }

    /// Called once at the start. `rendered` is the path to the dump file.
    pub fn start(&mut self, config: &Config, rendered: String) -> (actions: Vec<Action>)
        ensures
            *final(self) == (Dumper { path: rendered, ..*old(self) }),
            actions@ == seq![
                Action::Open { path: rendered, force: false },
                Action::ConfigureReporter(config.log_cooldown),
                Action::ConfigureRules,
                Action::StartInterval(config.write_interval),
            ],
    {
        self.path = rendered;
        let mut actions: Vec<Action> = Vec::new();
        actions.push(Action::Open { path: self.path.clone(), force: false });
        actions.push(Action::ConfigureReporter(config.log_cooldown));
        actions.push(Action::ConfigureRules);
        actions.push(Action::StartInterval(config.write_interval));
        actions
    }

    /// Called on `ConfigUpdated`.
    pub fn on_config_updated(&mut self, config: &Config, rendered: String) -> (actions: Vec<Action>)
        ensures
            *final(self) == (Dumper { path: rendered, ..*old(self) }),
            actions@ == seq![
                Action::SetPeriod(config.write_interval),
                Action::Open { path: rendered, force: false },
                Action::ConfigureRules,
                Action::ConfigureReporter(config.log_cooldown),
            ] + (if old(self).manager is Some {
                seq![Action::ConfigureStorage(config.registry_capacity)]
            } else {
                Seq::empty()
            }),
    {
        self.path = rendered;
        let mut actions: Vec<Action> = Vec::new();
        actions.push(Action::SetPeriod(config.write_interval));
        actions.push(Action::Open { path: self.path.clone(), force: false });
        actions.push(Action::ConfigureRules);
        actions.push(Action::ConfigureReporter(config.log_cooldown));
        if self.manager.is_some() {
            actions.push(Action::ConfigureStorage(config.registry_capacity));
        }
        actions
    }

    /// Called on `ReopenDumpFile`.
    pub fn on_reopen(&self) -> (action: Action)
        ensures
            action == (Action::Open { path: self.path, force: true }),
    {
        Action::Open { path: self.path.clone(), force: true }
    }

    /// Called on `DumpingTick`. The path is rendered again because it can depend
    /// on time.
    pub fn on_tick(&mut self, config: &Config, rendered: String) -> (action: Action)
        ensures
            *final(self) == (Dumper { path: rendered, ..*old(self) }),
            action == (Action::WriteDumps { path: rendered, timeout: config.write_interval }),
    {
        self.path = rendered;
        Action::WriteDumps { path: self.path.clone(), timeout: config.write_interval }
    }

    /// Called once dumps are written.
    pub fn after_tick(&mut self, classes: &Vec<String>) -> (res: AfterTick)
        ensures
            if old(self).need_to_terminate {
                &&& *final(self) == *old(self)
                &&& res == (AfterTick::Sync { path: old(self).path })
            } else {
                &&& res matches AfterTick::Spawn(new) && texts(new@) == old(self).unknown(classes@)
                &&& old(self).is_learned(*final(self), classes@)
            },
    {
        if self.need_to_terminate {
            return AfterTick::Sync { path: self.path.clone() };
        }
        AfterTick::Spawn(self.spawn_dumpers_if_needed(classes))
    }

    /// Called on `Terminate`. It waits until the next tick to write the last
    /// dumps.
    pub fn on_terminate(&mut self)
        ensures
            *final(self) == (Dumper { need_to_terminate: true, ..*old(self) }),
    {
        self.need_to_terminate = true;
    }

    /// Classes that dumpers must be started for.
    pub open spec fn unknown(&self, classes: Seq<String>) -> Seq<Seq<char>> {
        match self.manager {
            Some(manager) if classes.len() != manager.known_classes.len() => difference(
                classes,
                manager.known_classes@,
            ),
            _ => Seq::empty(),
        }
    }

    /// Whether `next` knows all classes.
    pub open spec fn is_learned(&self, next: Dumper, classes: Seq<String>) -> bool {
        &&& next.class == self.class
        &&& next.path == self.path
        &&& next.need_to_terminate == self.need_to_terminate
        &&& match (self.manager, next.manager) {
            (Some(before), Some(after)) => if classes.len() == before.known_classes.len() {
                after == before
            } else {
                texts(after.known_classes@) == texts(classes)
            },
            (None, None) => true,
            _ => false,
        }
    }

    /// Returns new classes.
    pub fn spawn_dumpers_if_needed(&mut self, classes: &Vec<String>) -> (new: Vec<String>)
        ensures
            texts(new@) == old(self).unknown(classes@),
            old(self).is_learned(*final(self), classes@),
    {
        let mut new: Vec<String> = Vec::new();
        assert(texts(new@) =~= Seq::empty());
        let manager = match self.manager.take() {
            Some(manager) => manager,
            None => return new,
        };

        // Classes cannot be removed if created.
        if classes.len() == manager.known_classes.len() {
            self.manager = Some(manager);
            return new;
        }

        // Create more dumpers for new classes.
        let mut i: usize = 0;
        assert(classes@.take(0).len() == 0);
        while i < classes.len()
            invariant
                i <= classes.len(),
                texts(new@) == difference(classes@.take(i as int), manager.known_classes@),
            decreases classes.len() - i,
        {
            let ghost next = classes@.take(i + 1);
            assert(next.drop_last() =~= classes@.take(i as int));
            assert(next.last() == classes@[i as int]);
            if !contains(&manager.known_classes, &classes[i]) {
                let ghost before = new@;
                new.push(classes[i].clone());
                assert(texts(new@) =~= texts(before).push(classes[i as int]@));
            }
            i += 1;
        }
        assert(classes@.take(i as int) =~= classes@);

        self.manager = Some(Manager { known_classes: collect_classes(classes) });
        new
    }
}

/// Decides which dumpers get a message.
pub fn route(message: &Routed, classes: &Vec<String>) -> (res: Outcome<String>)
    ensures
        match message {
            Routed::UpdateConfig => res matches Outcome::Multicast(keys) && texts(keys@) == texts(
                classes@,
            ),
            Routed::StartDumperForClass(class) => res == Outcome::Unicast(*class),
            Routed::Other => res is Default,
        },
{
    match message {
        Routed::UpdateConfig => Outcome::Multicast(collect_classes(classes)),
        Routed::StartDumperForClass(class) => Outcome::Unicast(class.clone()),
        Routed::Other => Outcome::Default,
    }
}

/// Failed dumpers are restarted.
pub fn restart_policy() -> (policy: RestartPolicy)
    ensures
        policy.mode == RestartMode::OnFailure(
            RestartParams {
                min_backoff: MIN_BACKOFF,
                max_backoff: MAX_BACKOFF,
                auto_reset: MIN_BACKOFF,
                max_retries: u64::MAX,
                factor: DEFAULT_FACTOR,
            },
        ),
{
    RestartPolicy::on_failure(RestartParams::new(MIN_BACKOFF, MAX_BACKOFF))
}

// === Laws ===

/// Whether there are no equal classes.
pub open spec fn are_unique(classes: Seq<String>) -> bool {
    forall|i: int, j: int|
        0 <= i < j < classes.len() ==> (#[trigger] classes[i])@ != (#[trigger] classes[j])@
}

proof fn lemma_difference(classes: Seq<String>, known: Seq<String>, class: Seq<char>)
    ensures
        difference(classes, known).contains(class) == (has_class(classes, class) && !has_class(
            known,
            class,
        )),
    decreases classes.len(),
{
    if classes.len() > 0 {
        let rest = classes.drop_last();
        lemma_difference(rest, known, class);
        let before = difference(rest, known);
        let last = classes.last()@;
        if has_class(rest, class) {
            let i = choose|i: int| 0 <= i < rest.len() && (#[trigger] rest[i])@ == class;
            assert(classes[i]@ == class);
        }
        if has_class(classes, class) && class != last {
            let i = choose|i: int| 0 <= i < classes.len() && (#[trigger] classes[i])@ == class;
            assert(rest[i]@ == class);
        }
        assert(classes[classes.len() - 1]@ == last);
        if !has_class(known, last) {
            let after = before.push(last);
            if before.contains(class) {
                let i = choose|i: int| 0 <= i < before.len() && before[i] == class;
                assert(after[i] == class);
            }
            if class == last {
                assert(after[before.len() as int] == class);
            }
            if after.contains(class) && class != last {
                let i = choose|i: int| 0 <= i < after.len() && after[i] == class;
                assert(before[i] == class);
            }
        }
    } else {
        assert(!difference(classes, known).contains(class));
    }
}

proof fn lemma_same_classes(classes: Seq<String>, known: Seq<String>, class: Seq<char>)
    requires
        are_unique(classes),
        are_unique(known),
        classes.len() == known.len(),
        forall|i: int| 0 <= i < known.len() ==> has_class(classes, (#[trigger] known[i])@),
        has_class(classes, class),
    ensures
        has_class(known, class),
{
    let all = texts(classes);
    let old = texts(known);
    assert(all.no_duplicates());
    assert(old.no_duplicates());
    all.unique_seq_to_set();
    old.unique_seq_to_set();
    assert forall|c: Seq<char>| old.to_set().contains(c) implies all.to_set().contains(c) by {
        let i = choose|i: int| 0 <= i < old.len() && old[i] == c;
        assert(has_class(classes, known[i]@));
        let j = choose|j: int| 0 <= j < classes.len() && (#[trigger] classes[j])@ == known[i]@;
        assert(all[j] == c);
    }
    vstd::set_lib::lemma_subset_equality(old.to_set(), all.to_set());
    let j = choose|j: int| 0 <= j < classes.len() && (#[trigger] classes[j])@ == class;
    assert(all[j] == class);
    assert(old.to_set().contains(class));
    let i = choose|i: int| 0 <= i < old.len() && old[i] == class;
    assert(known[i]@ == class);
}

/// Dumpers are started exactly for classes that have appeared. It's enough to
/// compare numbers of classes, because classes cannot be removed if created.
pub proof fn every_new_class_gets_dumper(
    dumper: Dumper,
    manager: Manager,
    classes: Seq<String>,
    class: Seq<char>,
)
    requires
        dumper.manager == Some(manager),
        are_unique(classes),
        are_unique(manager.known_classes@),
        forall|i: int|
            0 <= i < manager.known_classes@.len() ==> has_class(
                classes,
                (#[trigger] manager.known_classes@[i])@,
            ),
    ensures
        dumper.unknown(classes).contains(class) == (has_class(classes, class) && !has_class(
            manager.known_classes@,
            class,
        )),
{
    lemma_difference(classes, manager.known_classes@, class);
    if classes.len() == manager.known_classes.len() && has_class(classes, class) {
        lemma_same_classes(classes, manager.known_classes@, class);
    }
}

/// A dumper starts with no file, and only the one of the internal class starts others.
pub proof fn internal_dumper_manages_others(class: String, dumper: Dumper)
    requires
        call_ensures(Dumper::new, (class,), dumper),
    ensures
        dumper.class == class && dumper.path@.len() == 0 && !dumper.need_to_terminate,
        dumper.manager is Some <==> class@ == "internal"@,
        dumper.manager is Some ==> dumper.manager->0.known_classes@.len() == 1
            && dumper.manager->0.known_classes@[0]@ == class@,
{
    if let Some(manager) = dumper.manager {
        assert(texts(manager.known_classes@).len() == 1);
        assert(texts(manager.known_classes@)[0] == manager.known_classes@[0]@);
    }
}

/// Everything is configured at the start and on every new config, with values of the
/// config. The storage is shared, so it's configured only by the manager.
pub proof fn configs_are_applied(
    a: &mut Dumper,
    b: &mut Dumper,
    config: Config,
    path: String,
    start: Vec<Action>,
    update: Vec<Action>,
)
    requires
        call_ensures(Dumper::start, (a, &config, path), start),
        call_ensures(Dumper::on_config_updated, (b, &config, path), update),
    ensures
        final(a).path == path && final(b).path == path,
        final(a).manager == old(a).manager && final(b).manager == old(b).manager,
        final(a).class == old(a).class && final(b).class == old(b).class,
        final(a).need_to_terminate == old(a).need_to_terminate,
        final(b).need_to_terminate == old(b).need_to_terminate,
        start@.len() == 4,
        start@[0] == (Action::Open { path, force: false }),
        start@.contains(Action::ConfigureReporter(config.log_cooldown)),
        start@.contains(Action::ConfigureRules),
        start@[3] == Action::StartInterval(config.write_interval),
        update@.len() == (if old(b).manager is Some {
            5int
        } else {
            4int
        }),
        update@.contains(Action::SetPeriod(config.write_interval)),
        update@.contains(Action::Open { path, force: false }),
        update@.contains(Action::ConfigureRules),
        update@.contains(Action::ConfigureReporter(config.log_cooldown)),
        old(b).manager is Some ==> update@.contains(
            Action::ConfigureStorage(config.registry_capacity),
        ),
{
    assert(start@[1] == Action::ConfigureReporter(config.log_cooldown));
    assert(start@[2] == Action::ConfigureRules);
    assert(update@[0] == Action::SetPeriod(config.write_interval));
    assert(update@[1] == (Action::Open { path, force: false }));
    assert(update@[2] == Action::ConfigureRules);
    assert(update@[3] == Action::ConfigureReporter(config.log_cooldown));
    if old(b).manager is Some {
        assert(update@[4] == Action::ConfigureStorage(config.registry_capacity));
    }
}

/// Dumps are written to the file with the path that is rendered last, and it's the
/// file that is reopened and synchronized.
pub proof fn last_rendered_path_is_used(
    dumper: &mut Dumper,
    terminating: &mut Dumper,
    ended: &mut Dumper,
    config: Config,
    path: String,
    action: Action,
    reopen: Action,
    classes: Vec<String>,
    res: AfterTick,
)
    requires
        call_ensures(Dumper::on_tick, (dumper, &config, path), action),
        call_ensures(Dumper::on_reopen, (final(dumper),), reopen),
        *old(terminating) == *final(dumper),
        call_ensures(Dumper::on_terminate, (terminating,), ()),
        *old(ended) == *final(terminating),
        call_ensures(Dumper::after_tick, (ended, &classes), res),
    ensures
        action == (Action::WriteDumps { path, timeout: config.write_interval }),
        reopen == (Action::Open { path, force: true }),
        res == (AfterTick::Sync { path }),
        final(dumper).manager == old(dumper).manager && final(dumper).class == old(dumper).class,
        final(dumper).need_to_terminate == old(dumper).need_to_terminate,
        final(terminating).path == path && final(terminating).need_to_terminate,
        final(terminating).manager == old(terminating).manager,
        *final(ended) == *old(ended),
{
}

/// Every class gets a dumper once it appears, and only once.
pub proof fn every_class_is_started_once(
    dumper: &mut Dumper,
    again: &mut Dumper,
    classes: Vec<String>,
    class: Seq<char>,
    first: AfterTick,
    second: AfterTick,
)
    requires
        !old(dumper).need_to_terminate,
        call_ensures(Dumper::after_tick, (dumper, &classes), first),
        *old(again) == *final(dumper),
        call_ensures(Dumper::after_tick, (again, &classes), second),
        old(dumper).manager is Some ==> {
            &&& are_unique(classes@)
            &&& are_unique(old(dumper).manager->0.known_classes@)
            &&& forall|i: int|
                0 <= i < old(dumper).manager->0.known_classes@.len() ==> has_class(
                    classes@,
                    (#[trigger] old(dumper).manager->0.known_classes@[i])@,
                )
        },
    ensures
        first is Spawn && second is Spawn,
        old(dumper).manager is None ==> first->Spawn_0@.len() == 0,
        old(dumper).manager is Some ==> (has_class(first->Spawn_0@, class) <==> has_class(
            classes@,
            class,
        ) && !has_class(old(dumper).manager->0.known_classes@, class)),
        second->Spawn_0@.len() == 0,
{
    let new = first->Spawn_0@;
    assert(texts(new).len() == new.len());
    assert(texts(second->Spawn_0@).len() == second->Spawn_0@.len());
    if let Some(manager) = old(dumper).manager {
        every_new_class_gets_dumper(*old(dumper), manager, classes@, class);
        if has_class(new, class) {
            let i = choose|i: int| 0 <= i < new.len() && (#[trigger] new[i])@ == class;
            assert(texts(new)[i] == class);
        }
        if texts(new).contains(class) {
            let i = choose|i: int| 0 <= i < texts(new).len() && texts(new)[i] == class;
            assert(new[i]@ == class);
        }
        let known = final(dumper).manager->0.known_classes@;
        assert(texts(known).len() == known.len());
        assert(texts(classes@).len() == classes@.len());
    }
}

/// A config is for all dumpers, and a request to start is for the dumper of the class.
pub proof fn dumpers_are_routed(
    class: String,
    classes: Vec<String>,
    a: Outcome<String>,
    b: Outcome<String>,
    c: Outcome<String>,
)
    requires
        call_ensures(route, (&Routed::UpdateConfig, &classes), a),
        call_ensures(route, (&Routed::StartDumperForClass(class), &classes), b),
        call_ensures(route, (&Routed::Other, &classes), c),
    ensures
        a is Multicast && a->Multicast_0@.len() == classes@.len(),
        forall|i: int|
            0 <= i < classes@.len() ==> (#[trigger] a->Multicast_0@[i])@ == classes@[i]@,
        b == Outcome::Unicast(class),
        c is Default,
{
    let keys = a->Multicast_0@;
    assert(texts(keys).len() == keys.len());
    assert(texts(classes@).len() == classes@.len());
    assert forall|i: int| 0 <= i < classes@.len() implies (#[trigger] keys[i])@ == classes@[i]@ by {
        assert(texts(keys)[i] == texts(classes@)[i]);
    }
}

/// Failed dumpers are restarted with delays from 5 to 30 seconds, others aren't.
pub proof fn failed_dumpers_are_restarted(policy: RestartPolicy)
    requires
        call_ensures(restart_policy, (), policy),
    ensures
        policy.mode matches RestartMode::OnFailure(params) && params.min_backoff == 5_000_000_000
            && params.max_backoff == 30_000_000_000 && params.auto_reset == 5_000_000_000
            && params.max_retries == u64::MAX && params.factor == 0x4000_0000_0000_0000,
{
}

/// A list of classes is copied as is, and new classes are those that aren't known yet.
pub proof fn new_classes_are_found(
    list: Vec<String>,
    copy: Vec<String>,
    a: &mut Dumper,
    b: &mut Dumper,
    new: Vec<String>,
    res: AfterTick,
    i: int,
)
    requires
        call_ensures(collect_classes, (&list,), copy),
        *old(a) == *old(b),
        !old(a).need_to_terminate,
        call_ensures(Dumper::spawn_dumpers_if_needed, (a, &list), new),
        call_ensures(Dumper::after_tick, (b, &list), res),
    ensures
        copy@.len() == list@.len(),
        0 <= i < list@.len() ==> copy@[i]@ == list@[i]@,
        res is Spawn && res->Spawn_0@.len() == new@.len(),
        0 <= i < new@.len() ==> res->Spawn_0@[i]@ == new@[i]@,
        final(a).class == old(a).class && final(a).path == old(a).path,
{
    let same = res->Spawn_0@;
    assert(texts(copy@).len() == copy@.len() && texts(list@).len() == list@.len());
    assert(texts(new@).len() == new@.len() && texts(same).len() == same.len());
    if 0 <= i < list@.len() {
        assert(texts(copy@)[i] == texts(list@)[i]);
    }
    if 0 <= i < new@.len() {
        assert(texts(new@)[i] == texts(same)[i]);
    }
}

} // verus!
