use vstd::prelude::*;

use super::config::{accepts, is_accepted, LogLevel, OnOverflow, Rule, RuleView};

verus! {

#[derive(Debug, Clone, Copy, PartialEq, Eq, Structural)]
pub struct DumpParams {
    pub max_size: usize,
    pub on_overflow: OnOverflow,
    pub log_on_overflow: LogLevel,
    pub log_on_failure: LogLevel,
}

impl DumpParams {
    pub open spec fn spec_default() -> DumpParams {
        DumpParams {
            max_size: 0x1_0000,
            on_overflow: OnOverflow::Skip,
            log_on_overflow: LogLevel::Warn,
            log_on_failure: LogLevel::Warn,
        }
    }

    /// Parameters that are overridden by the rule.
    pub open spec fn overridden(self, rule: RuleView) -> DumpParams {
        DumpParams {
            max_size: match rule.max_size {
                Some(value) => value,
                None => self.max_size,
            },
            on_overflow: match rule.on_overflow {
                Some(value) => value,
                None => self.on_overflow,
            },
            log_on_overflow: match rule.log_on_overflow {
                Some(value) => value,
                None => self.log_on_overflow,
            },
            log_on_failure: match rule.log_on_failure {
                Some(value) => value,
                None => self.log_on_failure,
            },
        }
    }
}

impl Default for DumpParams {
    fn default() -> (this: DumpParams)
        ensures
            this == DumpParams::spec_default(),
    {
        DumpParams {
            max_size: 64 * 1024,
            on_overflow: OnOverflow::Skip,
            log_on_overflow: LogLevel::Warn,
            log_on_failure: LogLevel::Warn,
        }
    }
}

/// Parameters of a message: the default ones with all matching rules applied
/// in order.
pub open spec fn collected(
    rules: Seq<RuleView>,
    protocol: Seq<char>,
    message: Seq<char>,
) -> DumpParams
    decreases rules.len(),
{
    if rules.len() == 0 {
        DumpParams::spec_default()
    } else {
        let params = collected(rules.drop_last(), protocol, message);
        let rule = rules.last();
        if accepts(rule.protocol, protocol) && accepts(rule.message, message) {
            params.overridden(rule)
        } else {
            params
        }
    }
}

/// Rules as values.
pub open spec fn rule_views(rules: Seq<Rule>) -> Seq<RuleView> {
    rules.map_values(|rule: Rule| rule@)
}

/// Rules that are related to the class, in the same order.
pub open spec fn rules_of_class(rules: Seq<RuleView>, class: Seq<char>) -> Seq<RuleView>
    decreases rules.len(),
{
    if rules.len() == 0 {
        Seq::empty()
    } else {
        let rest = rules_of_class(rules.drop_last(), class);
        if accepts(rules.last().class, class) {
            rest.push(rules.last())
        } else {
            rest
        }
    }
}

/// Parameters that have been already collected.
#[derive(Debug)]
struct Cached {
    protocol: String,
    message: String,
    params: DumpParams,
}

/// Knows parameters of all messages of one class.
#[derive(Debug)]
pub struct RuleSet {
    class: String,
    rules: Vec<Rule>,
    /// Every message is here at most once.
    cache: Vec<Cached>,
}

impl RuleSet {
    pub closed spec fn spec_class(&self) -> Seq<char> {
        self.class@
    }

    /// Rules of the class.
    pub closed spec fn spec_rules(&self) -> Seq<RuleView> {
        rule_views(self.rules@)
    }

    /// Whether parameters of the message have been already collected.
    pub closed spec fn is_cached(&self, protocol: Seq<char>, message: Seq<char>) -> bool {
        exists|i: int|
            0 <= i < self.cache.len() && (#[trigger] self.cache[i]).protocol@ == protocol
                && self.cache[i].message@ == message
    }

    #[verifier::type_invariant]
    closed spec fn inv(&self) -> bool {
        &&& forall|i: int|
            0 <= i < self.cache.len() ==> (#[trigger] self.cache[i]).params == collected(
                rule_views(self.rules@),
                self.cache[i].protocol@,
                self.cache[i].message@,
            )
        &&& forall|i: int, j: int|
            0 <= i < j < self.cache.len() ==> (#[trigger] self.cache[i]).protocol@ != (
            #[trigger] self.cache[j]).protocol@ || self.cache[i].message@ != self.cache[j].message@
    }

    pub fn new(class: String) -> (this: RuleSet)
        ensures
            this.spec_class() == class@,
            this.spec_rules() == Seq::<RuleView>::empty(),
            forall|protocol: Seq<char>, message: Seq<char>| !this.is_cached(protocol, message),
    {
        let this = RuleSet { class, rules: Vec::new(), cache: Vec::new() };
        assert(this.spec_rules() =~= Seq::empty());
        this
    }

    /// Replaces rules. If rules of the class are the same, collected parameters
    /// are kept.
    pub fn configure(&mut self, rules: &Vec<Rule>)
        ensures
            final(self).spec_class() == old(self).spec_class(),
            final(self).spec_rules() == rules_of_class(
                rule_views(rules@),
                old(self).spec_class(),
            ),
            final(self).spec_rules() == old(self).spec_rules() ==> *final(self) == *old(self),
            final(self).spec_rules() != old(self).spec_rules() ==> forall|
                protocol: Seq<char>,
                message: Seq<char>,
            | !final(self).is_cached(protocol, message),
    {
        let new_rules = filter_rules(rules, self.class.as_str());
        if !same_rules(&self.rules, &new_rules) {
            let empty = RuleSet { class: String::new(), rules: Vec::new(), cache: Vec::new() };
            let old_set = replace_set(self, empty);
            *self = RuleSet { class: old_set.class, rules: new_rules, cache: Vec::new() };
        }
    }

    /// Returns parameters of the message.
    pub fn get(&mut self, protocol: &str, message: &str) -> (params: DumpParams)
        ensures
            params == collected(old(self).spec_rules(), protocol@, message@),
            final(self).spec_class() == old(self).spec_class(),
            final(self).spec_rules() == old(self).spec_rules(),
    {
        self.do_get(protocol, message).1
    }

    /// Returns parameters of the message and whether they were already
    /// collected.
    pub fn do_get(&mut self, protocol: &str, message: &str) -> (res: (bool, DumpParams))
        ensures
            res.0 == old(self).is_cached(protocol@, message@),
            res.1 == collected(old(self).spec_rules(), protocol@, message@),
            final(self).spec_class() == old(self).spec_class(),
            final(self).spec_rules() == old(self).spec_rules(),
            forall|p: Seq<char>, m: Seq<char>| #[trigger]
                final(self).is_cached(p, m) == (old(self).is_cached(p, m) || (p, m) == (
                    protocol@,
                    message@,
                )),
    {
        proof {
            use_type_invariant(&*self);
        }
        let owned_protocol: String = protocol.to_owned();
        let owned_message: String = message.to_owned();
        let mut i: usize = 0;
        while i < self.cache.len()
            invariant
                i <= self.cache.len(),
                *self == *old(self),
                self.inv(),
                owned_protocol@ == protocol@,
                owned_message@ == message@,
                forall|k: int|
                    0 <= k < i ==> (#[trigger] self.cache[k]).protocol@ != protocol@
                        || self.cache[k].message@ != message@,
            decreases self.cache.len() - i,
        {
            if self.cache[i].protocol == owned_protocol && self.cache[i].message == owned_message {
                assert(self.is_cached(protocol@, message@));
                return (true, self.cache[i].params);
            }
            i += 1;
        }

        assert(!self.is_cached(protocol@, message@));
        let params = collect_params(&self.rules, protocol, message);
        let empty = RuleSet { class: String::new(), rules: Vec::new(), cache: Vec::new() };
        let old_set = replace_set(self, empty);
        let RuleSet { class, rules, mut cache } = old_set;
        let ghost before = cache@;
        cache.push(Cached { protocol: owned_protocol, message: owned_message, params });
        *self = RuleSet { class, rules, cache };
        proof {
            assert forall|p: Seq<char>, m: Seq<char>| #[trigger] self.is_cached(p, m) == (old(self).is_cached(p, m) || (p, m) == (protocol@, message@)) by {
                assert(self.cache@ == before.push(self.cache@.last()));
                if old(self).is_cached(p, m) {
                    let k = choose|k: int|
                        0 <= k < before.len() && (#[trigger] before[k]).protocol@ == p
                            && before[k].message@ == m;
                    assert(self.cache[k] == before[k]);
                }
                if (p, m) == (protocol@, message@) {
                    assert(self.cache[before.len() as int].protocol@ == p);
                }
                if self.is_cached(p, m) {
                    let k = choose|k: int|
                        0 <= k < self.cache.len() && (#[trigger] self.cache[k]).protocol@ == p
                            && self.cache[k].message@ == m;
                    if k < before.len() {
                        assert(before[k] == self.cache[k]);
                        assert(old(self).cache[k].protocol@ == p);
                    }
                }
            }
        }
        (false, params)
    }
}

fn replace_set(dest: &mut RuleSet, value: RuleSet) -> (old_value: RuleSet)
    ensures
        old_value == *old(dest),
        *final(dest) == value,
{
    let mut value = value;
    std::mem::swap(dest, &mut value);
    value
}

fn filter_rules(rules: &Vec<Rule>, class: &str) -> (res: Vec<Rule>)
    ensures
        rule_views(res@) == rules_of_class(rule_views(rules@), class@),
{
    let mut res: Vec<Rule> = Vec::new();
    let ghost views = rule_views(rules@);
    let mut i: usize = 0;
    assert(rule_views(res@) =~= Seq::empty());
    assert(views.take(0).len() == 0);
    while i < rules.len()
        invariant
            i <= rules.len(),
            views == rule_views(rules@),
            rule_views(res@) == rules_of_class(views.take(i as int), class@),
        decreases rules.len() - i,
    {
        let ghost next = views.take(i + 1);
        let ghost before = res@;
        proof {
            assert(next.drop_last() =~= views.take(i as int));
            assert(next.last() == rules[i as int]@);
        }
        if is_accepted(&rules[i].class, class) {
            res.push(rules[i].duplicate());
            assert(rule_views(res@) =~= rule_views(before).push(rules[i as int]@));
        }
        i += 1;
    }
    assert(views.take(i as int) =~= views);
    res
}

fn same_rules(a: &Vec<Rule>, b: &Vec<Rule>) -> (res: bool)
    ensures
        res == (rule_views(a@) == rule_views(b@)),
{
    if a.len() != b.len() {
        assert(rule_views(a@).len() != rule_views(b@).len());
        return false;
    }
    let mut i: usize = 0;
    while i < a.len()
        invariant
            i <= a.len() == b.len(),
            forall|k: int| 0 <= k < i ==> (#[trigger] a[k])@ == b[k]@,
        decreases a.len() - i,
    {
        if !a[i].is_same(&b[i]) {
            assert(rule_views(a@)[i as int] != rule_views(b@)[i as int]);
            return false;
        }
        i += 1;
    }
    assert(rule_views(a@) =~= rule_views(b@));
    true
}

/// Applies all rules that match a message.
pub fn collect_params(rules: &Vec<Rule>, protocol: &str, message: &str) -> (params: DumpParams)
    ensures
        params == collected(rule_views(rules@), protocol@, message@),
{
    let mut params = DumpParams::default();
    let ghost views = rule_views(rules@);
    let mut i: usize = 0;
    assert(views.take(0).len() == 0);
    while i < rules.len()
        invariant
            i <= rules.len(),
            views == rule_views(rules@),
            params == collected(views.take(i as int), protocol@, message@),
        decreases rules.len() - i,
    {
        let rule = &rules[i];
        let ghost next = views.take(i + 1);
        proof {
            assert(next.drop_last() =~= views.take(i as int));
            assert(next.last() == rule@);
        }
        if is_accepted(&rule.protocol, protocol) && is_accepted(&rule.message, message) {
            if let Some(value) = rule.max_size {
                params.max_size = value;
            }
            if let Some(value) = rule.on_overflow {
                params.on_overflow = value;
            }
            if let Some(value) = rule.log_on_overflow {
                params.log_on_overflow = value;
            }
            if let Some(value) = rule.log_on_failure {
                params.log_on_failure = value;
            }
        }
        i += 1;
    }
    assert(views.take(i as int) =~= views);
    params
}

// === Laws ===

/// The last matching rule that defines a property wins.
pub proof fn last_matching_rule_wins(
    rules: Seq<RuleView>,
    rule: RuleView,
    protocol: Seq<char>,
    message: Seq<char>,
)
    ensures
        ({
            let before = collected(rules, protocol, message);
            let after = collected(rules.push(rule), protocol, message);
            if accepts(rule.protocol, protocol) && accepts(rule.message, message) {
                &&& rule.max_size matches Some(value) ==> after.max_size == value
                &&& rule.on_overflow matches Some(value) ==> after.on_overflow == value
                &&& rule.log_on_overflow matches Some(value) ==> after.log_on_overflow == value
                &&& rule.log_on_failure matches Some(value) ==> after.log_on_failure == value
                &&& rule.max_size is None ==> after.max_size == before.max_size
                &&& rule.on_overflow is None ==> after.on_overflow == before.on_overflow
                &&& rule.log_on_overflow is None ==> after.log_on_overflow
                    == before.log_on_overflow
                &&& rule.log_on_failure is None ==> after.log_on_failure == before.log_on_failure
            } else {
                after == before
            }
        }),
{
    assert(rules.push(rule).drop_last() =~= rules);
}

/// Rules of other classes are never taken into account.
pub proof fn rules_of_other_classes_are_ignored(
    rules: Seq<RuleView>,
    rule: RuleView,
    class: Seq<char>,
)
    ensures
        !accepts(rule.class, class) ==> rules_of_class(rules.push(rule), class) == rules_of_class(
            rules,
            class,
        ),
{
    assert(rules.push(rule).drop_last() =~= rules);
}

/// Whether the rule is about the message of the class: what it doesn't name, it
/// doesn't limit.
pub open spec fn is_about(
    rule: Rule,
    class: Seq<char>,
    protocol: Seq<char>,
    message: Seq<char>,
) -> bool {
    &&& rule.class is None || rule.class->0@ == class
    &&& rule.protocol is None || rule.protocol->0@ == protocol
    &&& rule.message is None || rule.message->0@ == message
}

/// Rules are applied in order. One more rule at the end overrides exactly
/// properties that it defines, and only for messages that it's about.
///
/// `fewer` and `more` are sets of the same class.
pub proof fn last_given_rule_wins(
    fewer: &mut RuleSet,
    more: &mut RuleSet,
    rules: Vec<Rule>,
    all_rules: Vec<Rule>,
    rule: Rule,
    fewer_asked: &mut RuleSet,
    more_asked: &mut RuleSet,
    protocol: &str,
    message: &str,
    before: DumpParams,
    after: DumpParams,
)
    requires
        all_rules@ == rules@.push(rule),
        old(fewer).spec_class() == old(more).spec_class(),
        call_ensures(RuleSet::configure, (fewer, &rules), ()),
        call_ensures(RuleSet::configure, (more, &all_rules), ()),
        *old(fewer_asked) == *final(fewer),
        *old(more_asked) == *final(more),
        call_ensures(RuleSet::get, (fewer_asked, protocol, message), before),
        call_ensures(RuleSet::get, (more_asked, protocol, message), after),
    ensures
        !is_about(rule, old(fewer).spec_class(), protocol@, message@) ==> after == before,
        is_about(rule, old(fewer).spec_class(), protocol@, message@) ==> {
            &&& after.max_size == (if rule.max_size is Some {
                rule.max_size->0
            } else {
                before.max_size
            })
            &&& after.on_overflow == (if rule.on_overflow is Some {
                rule.on_overflow->0
            } else {
                before.on_overflow
            })
            &&& after.log_on_overflow == (if rule.log_on_overflow is Some {
                rule.log_on_overflow->0
            } else {
                before.log_on_overflow
            })
            &&& after.log_on_failure == (if rule.log_on_failure is Some {
                rule.log_on_failure->0
            } else {
                before.log_on_failure
            })
        },
{
    let class = old(fewer).spec_class();
    let views = rule_views(rules@);
    assert(rule_views(all_rules@) =~= views.push(rule@));
    accepted_rule_is_the_last(views, rule@, class);
    rules_of_other_classes_are_ignored(views, rule@, class);
    last_matching_rule_wins(rules_of_class(views, class), rule@, protocol@, message@);
}

/// Without rules, parameters are the default ones.
pub proof fn no_rules_means_defaults(
    set: &mut RuleSet,
    rules: Vec<Rule>,
    asked: &mut RuleSet,
    protocol: &str,
    message: &str,
    params: DumpParams,
)
    requires
        rules.len() == 0,
        call_ensures(RuleSet::configure, (set, &rules), ()),
        *old(asked) == *final(set),
        call_ensures(RuleSet::get, (asked, protocol, message), params),
    ensures
        params.max_size == 64 * 1024,
        params.on_overflow is Skip,
        params.log_on_overflow is Warn,
        params.log_on_failure is Warn,
{
    assert(rule_views(rules@) =~= Seq::empty());
}

/// A rule of the class at the end of all rules is at the end of rules of the
/// class.
pub proof fn accepted_rule_is_the_last(rules: Seq<RuleView>, rule: RuleView, class: Seq<char>)
    ensures
        rule.class is None || rule.class == Some(class) ==> rules_of_class(rules.push(rule), class)
            == rules_of_class(rules, class).push(rule),
{
    assert(rules.push(rule).drop_last() =~= rules);
}

/// What has been asked is answered the same again, whatever else is asked in
/// between.
pub proof fn answers_are_repeatable(
    set: &mut RuleSet,
    later: &mut RuleSet,
    protocol: &str,
    message: &str,
    first: DumpParams,
    second: DumpParams,
    is_cached: bool,
)
    requires
        call_ensures(RuleSet::get, (set, protocol, message), first),
        old(later).spec_rules() == final(set).spec_rules(),
        call_ensures(RuleSet::do_get, (later, protocol, message), (is_cached, second)),
    ensures
        second == first,
{
}

/// A set is of the given class, and knows no rules at first.
pub proof fn new_set_has_defaults(
    class: String,
    set: &mut RuleSet,
    asked: &mut RuleSet,
    protocol: &str,
    message: &str,
    params: DumpParams,
    default: DumpParams,
)
    requires
        call_ensures(RuleSet::new, (class,), *old(set)),
        *old(asked) == *old(set),
        call_ensures(RuleSet::get, (asked, protocol, message), params),
        call_ensures(<DumpParams as Default>::default, (), default),
    ensures
        old(set).spec_class() == class@,
        params == default,
        default.max_size == 64 * 1024 && default.on_overflow is Skip && default.log_on_overflow
            is Warn && default.log_on_failure is Warn,
{
}

/// Parameters are collected once: what has been asked is remembered, until rules of the
/// class are changed. Another class keeps its answers.
pub proof fn answers_are_cached(
    class: String,
    set: &mut RuleSet,
    again: &mut RuleSet,
    same: &mut RuleSet,
    rules: Vec<Rule>,
    protocol: &str,
    message: &str,
    first: (bool, DumpParams),
    second: (bool, DumpParams),
)
    requires
        call_ensures(RuleSet::new, (class,), *old(set)),
        call_ensures(RuleSet::do_get, (set, protocol, message), first),
        *old(again) == *final(set),
        call_ensures(RuleSet::do_get, (again, protocol, message), second),
        *old(same) == *final(again),
        rules@.len() == 0,
        call_ensures(RuleSet::configure, (same, &rules), ()),
    ensures
        !first.0 && second.0,
        first.1 == second.1,
        final(same).is_cached(protocol@, message@),
{
    assert(!old(set).is_cached(protocol@, message@));
    assert(final(set).is_cached(protocol@, message@));
    assert(rule_views(rules@) =~= Seq::empty());
}

/// Answers are forgotten once rules of the class are changed.
pub proof fn changed_rules_clear_cache(
    class: String,
    set: &mut RuleSet,
    configured: &mut RuleSet,
    asked: &mut RuleSet,
    rules: Vec<Rule>,
    protocol: &str,
    message: &str,
    first: (bool, DumpParams),
    second: (bool, DumpParams),
)
    requires
        call_ensures(RuleSet::new, (class,), *old(set)),
        call_ensures(RuleSet::do_get, (set, protocol, message), first),
        *old(configured) == *final(set),
        rules@.len() == 1,
        rules@[0].class is None || rules@[0].class->0@ == class@,
        call_ensures(RuleSet::configure, (configured, &rules), ()),
        *old(asked) == *final(configured),
        call_ensures(RuleSet::do_get, (asked, protocol, message), second),
    ensures
        !second.0,
{
    let views = rule_views(rules@);
    assert(views =~= Seq::empty().push(rules@[0]@));
    accepted_rule_is_the_last(Seq::empty(), rules@[0]@, class@);
    assert(old(set).spec_rules().len() == 0);
    assert(rules_of_class(views, class@).len() == 1);
    assert(final(configured).spec_rules() != old(configured).spec_rules());
    assert(!final(configured).is_cached(protocol@, message@));
}

/// Without a class, rules are applied in the same way: one more rule overrides exactly
/// properties that it defines, for messages that it's about.
pub proof fn rules_are_applied_in_order(
    rules: Vec<Rule>,
    all_rules: Vec<Rule>,
    rule: Rule,
    protocol: &str,
    message: &str,
    before: DumpParams,
    after: DumpParams,
    default: DumpParams,
)
    requires
        all_rules@ == rules@.push(rule),
        call_ensures(<DumpParams as Default>::default, (), default),
        call_ensures(collect_params, (&rules, protocol, message), before),
        call_ensures(collect_params, (&all_rules, protocol, message), after),
    ensures
        rules@.len() == 0 ==> before == default,
        ({
            let is_about = (rule.protocol is None || rule.protocol->0@ == protocol@) && (
            rule.message is None || rule.message->0@ == message@);
            &&& !is_about ==> after == before
            &&& is_about ==> after.max_size == (if rule.max_size is Some {
                rule.max_size->0
            } else {
                before.max_size
            })
            &&& is_about ==> after.on_overflow == (if rule.on_overflow is Some {
                rule.on_overflow->0
            } else {
                before.on_overflow
            })
            &&& is_about ==> after.log_on_overflow == (if rule.log_on_overflow is Some {
                rule.log_on_overflow->0
            } else {
                before.log_on_overflow
            })
            &&& is_about ==> after.log_on_failure == (if rule.log_on_failure is Some {
                rule.log_on_failure->0
            } else {
                before.log_on_failure
            })
        }),
{
    let views = rule_views(rules@);
    assert(rule_views(all_rules@) =~= views.push(rule@));
    last_matching_rule_wins(views, rule@, protocol@, message@);
}

} // verus!
