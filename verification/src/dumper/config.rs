use vstd::prelude::*;

use crate::logging::Level;
use crate::time::Nanos;

verus! {

/// `500ms`.
pub const DEFAULT_WRITE_INTERVAL: u128 = 500_000_000;

/// `1m`.
pub const DEFAULT_LOG_COOLDOWN: u128 = 60_000_000_000;

pub const DEFAULT_REGISTRY_CAPACITY: usize = 3_000_000;

/// The dumper's config.
///
/// # Examples
/// Only `path` is required. Thus, a minimal config looks like
/// ```toml
/// [system.dumpers]
/// path = "/path/all.dump"
/// ```
/// It writes all dumps into the same file.
///
/// However, it's recommended to use file-per-class and enable per actor
/// telemetry.
/// ```toml
/// [system.dumpers]
/// system.telemetry.per_actor_group = false
/// system.telemetry.per_actor_key = true
///
/// path = "/path/{class}.dump"
/// rules = [
///     { max_size = "128KiB", on_overflow = "Truncate" },
///     { class = "ws_api", log_on_overflow = "Info" },
///     { class = "external", max_size = "1MiB" },
/// ]
/// ```
#[derive(Debug)]
pub struct Config {
    /// A path to a dump file or template:
    /// * `path/all.dump` - one file.
    /// * `path/{class}.dump` - file per class.
    pub path: String,
    /// How often dumpers should write dumps to files.
    /// `500ms` by default.
    pub write_interval: Nanos,
    /// In order to avoid noisy logs about skipped, failed and truncated dumps,
    /// they are logged with this specified cooldown.
    /// `1m` by default.
    pub log_cooldown: Nanos,
    /// The maximum number of dumps in memory per class. If exceeded, old
    /// dumps are dropped.
    /// `3_000_000` by default.
    pub registry_capacity: usize,
    /// Rule set to override properties.
    /// All rules that match a message are merged. If several relevant rules
    /// define same property, the last one is applied.
    ///
    /// There is the prepended implicit rule that defines default properties:
    /// ```toml
    /// { max_size = "64KiB", on_overflow = "Skip", log_on_overflow = "Warn", log_on_failure = "Warn" }
    /// ```
    pub rules: Vec<Rule>,
}

/// Defines a rule to override some properties.
#[derive(Debug)]
pub struct Rule {
    // Matchers.
    /// Applies only for the specified class.
    pub class: Option<String>,
    /// Applies only for the specified protocol.
    pub protocol: Option<String>,
    /// Applies only for the specified message.
    pub message: Option<String>,
    // Params.
    /// Specified the maximum size of a dump.
    pub max_size: Option<usize>,
    /// Specified what to do if `max_size` is reached.
    pub on_overflow: Option<OnOverflow>,
    /// Specified the logging level if `max_size` is reached.
    pub log_on_overflow: Option<LogLevel>,
    /// Specified the logging level if a message cannot be serialized.
    pub log_on_failure: Option<LogLevel>,
}

/// What to do if a dump is too big.
#[derive(Debug, Clone, Copy, PartialEq, Eq, Structural, Hash)]
pub enum OnOverflow {
    /// Skip a dump, don't write to a file.
    Skip,
    /// Truncate a dump, serialize as an incomplete JSON with appended
    /// `TRUNCATED`.
    Truncate,
}

/// A logging level.
#[derive(Debug, Clone, Copy, PartialEq, Eq, Structural, Hash)]
pub enum LogLevel {
    Trace,
    Debug,
    Info,
    Warn,
    Error,
    Off,
}

impl LogLevel {
    pub open spec fn spec_into_level(self) -> Option<Level> {
        match self {
            LogLevel::Trace => Some(Level::Trace),
            LogLevel::Debug => Some(Level::Debug),
            LogLevel::Info => Some(Level::Info),
            LogLevel::Warn => Some(Level::Warn),
            LogLevel::Error => Some(Level::Error),
            LogLevel::Off => None,
        }
    }

    /// The level of events, `None` if nothing is logged.
    pub fn into_level(self) -> (level: Option<Level>)
        ensures
            level == self.spec_into_level(),
    {
        match self {
            LogLevel::Trace => Some(Level::Trace),
            LogLevel::Debug => Some(Level::Debug),
            LogLevel::Info => Some(Level::Info),
            LogLevel::Warn => Some(Level::Warn),
            LogLevel::Error => Some(Level::Error),
            LogLevel::Off => None,
        }
    }
}

// === Rule ===

/// A rule as a value.
pub struct RuleView {
    pub class: Option<Seq<char>>,
    pub protocol: Option<Seq<char>>,
    pub message: Option<Seq<char>>,
    pub max_size: Option<usize>,
    pub on_overflow: Option<OnOverflow>,
    pub log_on_overflow: Option<LogLevel>,
    pub log_on_failure: Option<LogLevel>,
}

/// The text of an optional string.
pub open spec fn opt_view(s: Option<String>) -> Option<Seq<char>> {
    match s {
        Some(s) => Some(s@),
        None => None,
    }
}

/// Whether an optional pattern accepts the text. The absent one accepts all.
pub open spec fn accepts(pattern: Option<Seq<char>>, text: Seq<char>) -> bool {
    pattern matches Some(pattern) ==> pattern == text
}

impl View for Rule {
    type V = RuleView;

    open spec fn view(&self) -> RuleView {
        RuleView {
            class: opt_view(self.class),
            protocol: opt_view(self.protocol),
            message: opt_view(self.message),
            max_size: self.max_size,
            on_overflow: self.on_overflow,
            log_on_overflow: self.log_on_overflow,
            log_on_failure: self.log_on_failure,
        }
    }
}

impl Default for Rule {
    /// Applies to all messages and overrides nothing.
    fn default() -> (this: Rule)
        ensures
            this@ == (RuleView {
                class: None,
                protocol: None,
                message: None,
                max_size: None,
                on_overflow: None,
                log_on_overflow: None,
                log_on_failure: None,
            }),
    {
        Rule {
            class: None,
            protocol: None,
            message: None,
            max_size: None,
            on_overflow: None,
            log_on_overflow: None,
            log_on_failure: None,
        }
    }
}

impl Rule {
    /// Makes a copy.
    pub fn duplicate(&self) -> (copy: Rule)
        ensures
            copy@ == self@,
    {
        Rule {
            class: duplicate_opt(&self.class),
            protocol: duplicate_opt(&self.protocol),
            message: duplicate_opt(&self.message),
            max_size: self.max_size,
            on_overflow: self.on_overflow,
            log_on_overflow: self.log_on_overflow,
            log_on_failure: self.log_on_failure,
        }
    }

    /// Whether rules are the same.
    pub fn is_same(&self, other: &Rule) -> (res: bool)
        ensures
            res == (self@ == other@),
    {
        same_opt(&self.class, &other.class) && same_opt(&self.protocol, &other.protocol)
            && same_opt(&self.message, &other.message) && same_size(self.max_size, other.max_size)
            && same_overflow(self.on_overflow, other.on_overflow) && same_level(
            self.log_on_overflow,
            other.log_on_overflow,
        ) && same_level(self.log_on_failure, other.log_on_failure)
    }
}

fn duplicate_opt(s: &Option<String>) -> (copy: Option<String>)
    ensures
        opt_view(copy) == opt_view(*s),
{
    match s {
        Some(s) => Some(s.clone()),
        None => None,
    }
}

fn same_opt(a: &Option<String>, b: &Option<String>) -> (res: bool)
    ensures
        res == (opt_view(*a) == opt_view(*b)),
{
    match (a, b) {
        (Some(a), Some(b)) => *a == *b,
        (None, None) => true,
        _ => false,
    }
}

fn same_size(a: Option<usize>, b: Option<usize>) -> (res: bool)
    ensures
        res == (a == b),
{
    match (a, b) {
        (Some(a), Some(b)) => a == b,
        (None, None) => true,
        _ => false,
    }
}

fn same_overflow(a: Option<OnOverflow>, b: Option<OnOverflow>) -> (res: bool)
    ensures
        res == (a == b),
{
    match (a, b) {
        (Some(a), Some(b)) => a == b,
        (None, None) => true,
        _ => false,
    }
}

fn same_level(a: Option<LogLevel>, b: Option<LogLevel>) -> (res: bool)
    ensures
        res == (a == b),
{
    match (a, b) {
        (Some(a), Some(b)) => a == b,
        (None, None) => true,
        _ => false,
    }
}

/// Whether an optional pattern accepts the text. The absent one accepts all.
pub fn is_accepted(pattern: &Option<String>, text: &str) -> (res: bool)
    ensures
        res == accepts(opt_view(*pattern), text@),
{
    match pattern {
        Some(pattern) => *pattern == text.to_owned(),
        None => true,
    }
}

// === Config ===

/// The text with all occurrences of `pattern` replaced, from left to right.
pub open spec fn replaced(s: Seq<char>, pattern: Seq<char>, by: Seq<char>) -> Seq<char>
    recommends
        pattern.len() > 0,
    decreases s.len(),
{
    if s.len() == 0 || pattern.len() == 0 {
        s
    } else if pattern.is_prefix_of(s) {
        by + replaced(s.skip(pattern.len() as int), pattern, by)
    } else {
        seq![s[0]] + replaced(s.skip(1), pattern, by)
    }
}

impl Config {
    /// A config with default properties.
    pub fn new(path: String) -> (this: Config)
        ensures
            this.path == path,
            this.write_interval == DEFAULT_WRITE_INTERVAL,
            this.log_cooldown == DEFAULT_LOG_COOLDOWN,
            this.registry_capacity == DEFAULT_REGISTRY_CAPACITY,
            this.rules@.len() == 0,
    {
        Config {
            path,
            write_interval: DEFAULT_WRITE_INTERVAL,
            log_cooldown: DEFAULT_LOG_COOLDOWN,
            registry_capacity: DEFAULT_REGISTRY_CAPACITY,
            rules: Vec::new(),
        }
    }

    /// The path to a dump file of the class.
    pub fn path(&self, class: &str) -> (path: String)
        ensures
            path@ == replaced(self.path@, "{class}"@, class@),
    {
        let template: &str = self.path.as_str();
        let pattern: String = "{class}".to_owned();
        proof {
            reveal_strlit("{class}");
        }
        let len: usize = template.unicode_len();
        let mut path: String = String::new();
        let mut i: usize = 0;
        assert(template@.skip(0) =~= template@);
        assert(path@ + replaced(template@, pattern@, class@) =~= replaced(
            template@,
            pattern@,
            class@,
        ));
        while i < len
            invariant
                i <= len == template@.len(),
                template@ == self.path@,
                pattern@ == "{class}"@,
                pattern@.len() == 7,
                path@ + replaced(template@.skip(i as int), pattern@, class@) == replaced(
                    self.path@,
                    pattern@,
                    class@,
                ),
            decreases len - i,
        {
            let ghost rest = template@.skip(i as int);
            let ghost before = path@;
            let is_found = len - i >= 7 && template.substring_char(i, i + 7).to_owned() == pattern;
            proof {
                if len - i >= 7 {
                    assert(rest.take(7) =~= template@.subrange(i as int, i + 7));
                }
                assert(is_found == pattern@.is_prefix_of(rest)) by {
                    if pattern@.is_prefix_of(rest) {
                        assert(rest.take(7) =~= pattern@);
                    }
                }
            }
            if is_found {
                path.append(class);
                i += 7;
                proof {
                    assert(rest.skip(7) =~= template@.skip(i as int));
                    let tail = replaced(template@.skip(i as int), pattern@, class@);
                    assert(before + (class@ + tail) =~= path@ + tail);
                }
            } else {
                path.append(template.substring_char(i, i + 1));
                i += 1;
                proof {
                    assert(rest.skip(1) =~= template@.skip(i as int));
                    assert(template@.subrange(i - 1, i as int) =~= seq![rest[0]]);
                    let tail = replaced(template@.skip(i as int), pattern@, class@);
                    assert(before + (seq![rest[0]] + tail) =~= path@ + tail);
                }
            }
        }
        assert(template@.skip(i as int) =~= Seq::empty());
        assert(path@ + Seq::<char>::empty() =~= path@);
        path
    }
}

// === Laws ===

/// Whether `part` is in the text at the position.
pub open spec fn is_at(s: Seq<char>, part: Seq<char>, i: int) -> bool {
    0 <= i <= s.len() - part.len() && s.subrange(i, i + part.len()) == part
}

proof fn lemma_replaced(s: Seq<char>, pattern: Seq<char>, by: Seq<char>, at: int)
    requires
        pattern.len() > 0,
        0 <= at <= s.len(),
        forall|i: int| 0 <= i < at ==> !#[trigger] is_at(s, pattern, i),
    ensures
        at == s.len() ==> replaced(s, pattern, by) == s,
        is_at(s, pattern, at) ==> replaced(s, pattern, by) == s.take(at) + by + replaced(
            s.skip(at + pattern.len()),
            pattern,
            by,
        ),
    decreases at,
{
    if at > 0 {
        let rest = s.skip(1);
        assert forall|i: int| 0 <= i < at - 1 implies !#[trigger] is_at(rest, pattern, i) by {
            assert(!is_at(s, pattern, i + 1));
            if is_at(rest, pattern, i) {
                assert(s.subrange(i + 1, i + 1 + pattern.len()) =~= rest.subrange(
                    i,
                    i + pattern.len(),
                ));
            }
        }
        assert(!is_at(s, pattern, 0));
        if pattern.is_prefix_of(s) {
            assert(s.subrange(0, pattern.len() as int) =~= pattern);
        }
        lemma_replaced(rest, pattern, by, at - 1);
        if at == s.len() {
            assert(seq![s[0]] + rest =~= s);
        }
        if is_at(s, pattern, at) {
            assert(rest.subrange(at - 1, at - 1 + pattern.len()) =~= s.subrange(
                at,
                at + pattern.len(),
            ));
            assert(rest.skip(at - 1 + pattern.len()) =~= s.skip(at + pattern.len()));
            assert(seq![s[0]] + (rest.take(at - 1) + by + replaced(
                s.skip(at + pattern.len()),
                pattern,
                by,
            )) =~= s.take(at) + by + replaced(s.skip(at + pattern.len()), pattern, by));
        }
    } else {
        if is_at(s, pattern, 0) {
            assert(pattern.is_prefix_of(s)) by {
                assert(s.subrange(0, pattern.len() as int) =~= s.take(pattern.len() as int));
            }
            assert(s.take(0) + by + replaced(s.skip(pattern.len() as int), pattern, by) =~= by
                + replaced(s.skip(pattern.len() as int), pattern, by));
        }
    }
}

/// Every `{class}` in a path is replaced with the class, and nothing else is: what
/// is before the first one is kept, what is after it is treated likewise.
pub proof fn classes_are_substituted(
    config: Config,
    class: &str,
    path: String,
    at: int,
    rest: Config,
    rest_path: String,
)
    requires
        call_ensures(Config::path, (&config, class), path),
        call_ensures(Config::path, (&rest, class), rest_path),
        0 <= at <= config.path@.len(),
        forall|i: int| 0 <= i < at ==> !#[trigger] is_at(config.path@, "{class}"@, i),
        rest.path@ == config.path@.skip(at + 7),
    ensures
        at == config.path@.len() ==> path@ == config.path@,
        is_at(config.path@, "{class}"@, at) ==> path@ == config.path@.take(at) + class@
            + rest_path@,
{
    reveal_strlit("{class}");
    lemma_replaced(config.path@, "{class}"@, class@, at);
}

/// Levels keep their names, and only `Off` means that nothing is logged.
pub proof fn levels_keep_names(level: LogLevel, res: Option<Level>)
    requires
        call_ensures(LogLevel::into_level, (level,), res),
    ensures
        res is None <==> level is Off,
        level is Trace ==> res == Some(Level::Trace),
        level is Debug ==> res == Some(Level::Debug),
        level is Info ==> res == Some(Level::Info),
        level is Warn ==> res == Some(Level::Warn),
        level is Error ==> res == Some(Level::Error),
{
}

/// An absent pattern accepts everything, a present one accepts only itself.
pub proof fn patterns_accept_themselves(pattern: Option<String>, text: &str, res: bool)
    requires
        call_ensures(is_accepted, (&pattern, text), res),
    ensures
        pattern is None ==> res,
        pattern is Some ==> (res <==> pattern->0@ == text@),
{
}

/// A rule is about everything and overrides nothing unless it says otherwise, copies of it
/// are the same rule, and rules that differ in anything are different.
pub proof fn rules_are_compared_by_contents(
    fresh: Rule,
    a: Rule,
    b: Rule,
    copy: Rule,
    is_same: bool,
    is_copy_same: bool,
)
    requires
        call_ensures(<Rule as Default>::default, (), fresh),
        call_ensures(Rule::duplicate, (&a,), copy),
        call_ensures(Rule::is_same, (&a, &b), is_same),
        call_ensures(Rule::is_same, (&a, &copy), is_copy_same),
    ensures
        fresh.class is None && fresh.protocol is None && fresh.message is None,
        fresh.max_size is None && fresh.on_overflow is None && fresh.log_on_overflow is None
            && fresh.log_on_failure is None,
        is_copy_same,
        copy.max_size == a.max_size && copy.on_overflow == a.on_overflow && copy.log_on_overflow
            == a.log_on_overflow && copy.log_on_failure == a.log_on_failure,
        copy.class is Some <==> a.class is Some,
        copy.class is Some ==> copy.class->0@ == a.class->0@,
        copy.protocol is Some <==> a.protocol is Some,
        copy.protocol is Some ==> copy.protocol->0@ == a.protocol->0@,
        copy.message is Some <==> a.message is Some,
        copy.message is Some ==> copy.message->0@ == a.message->0@,
        is_same ==> a.max_size == b.max_size && a.on_overflow == b.on_overflow && a.log_on_overflow
            == b.log_on_overflow && a.log_on_failure == b.log_on_failure,
        is_same ==> (a.class is Some <==> b.class is Some) && (a.class is Some ==> a.class->0@
            == b.class->0@),
        is_same ==> (a.protocol is Some <==> b.protocol is Some) && (a.protocol is Some
            ==> a.protocol->0@ == b.protocol->0@),
        is_same ==> (a.message is Some <==> b.message is Some) && (a.message is Some
            ==> a.message->0@ == b.message->0@),
{
    assert(fresh@.class is None && fresh@.protocol is None && fresh@.message is None);
    assert(opt_view(copy.class) == opt_view(a.class));
    assert(opt_view(copy.protocol) == opt_view(a.protocol));
    assert(opt_view(copy.message) == opt_view(a.message));
    assert(copy@.max_size == copy.max_size && copy@.on_overflow == copy.on_overflow);
    assert(a@.max_size == a.max_size && a@.on_overflow == a.on_overflow);
    if is_same {
        assert(opt_view(a.class) == opt_view(b.class));
        assert(opt_view(a.protocol) == opt_view(b.protocol));
        assert(opt_view(a.message) == opt_view(b.message));
        assert(b@.max_size == b.max_size && b@.on_overflow == b.on_overflow);
    }
}

/// Only the path is required: dumps are written twice a second, problems are logged once
/// a minute, and at most three million dumps are kept.
pub proof fn only_path_is_required(path: String, config: Config)
    requires
        call_ensures(Config::new, (path,), config),
    ensures
        config.path == path,
        config.write_interval == 500_000_000,
        config.log_cooldown == 60_000_000_000,
        config.registry_capacity == 3_000_000,
        config.rules@.len() == 0,
{
}

} // verus!
