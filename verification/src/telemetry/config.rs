use vstd::prelude::*;

verus! {

/// Telemetry configuration.
///
/// # Example
/// ```toml
/// [some_group]
/// system.telemetry.per_actor_group = false
/// system.telemetry.per_actor_key = true
/// ```
#[derive(Debug)]
pub struct TelemetryConfig {
    /// Whether to enable per-actor-group telemetry.
    ///
    /// `true` by default.
    pub per_actor_group: bool,
    /// Whether to enable per-actor-key telemetry.
    ///
    /// Can be either `true` to produce metrics for all keys
    /// or regex pattern to combine keys into "groups".
    ///
    /// `false` by default.
    ///
    /// # Example
    /// ```toml
    /// per_actor_key = true # emit metrics keywise
    /// per_actor_key = [".*:(.*?)", "${1}"] # group keys
    /// ```
    pub per_actor_key: PerActorKey,
}

/// How to produce metrics for actor keys.
#[derive(Debug)]
pub enum PerActorKey {
    /// Produce metrics for all keys.
    Bool(bool),
    /// Combine keys into "groups" by pattern.
    Replacement(String, String),
}

#[verifier::external_type_specification]
#[verifier::external_body]
pub struct ExRegexError(regex::Error);

/// Whether the text is a regular expression.
pub uninterp spec fn is_regex(pattern: Seq<char>) -> bool;

/// What replacing of the leftmost match of `pattern` in `haystack` with
/// `template` gives.
pub uninterp spec fn regex_replaced(
    pattern: Seq<char>,
    haystack: Seq<char>,
    template: Seq<char>,
) -> Seq<char>;

/// `Regex::new` compiles a pattern. Whether it succeeds depends on the pattern
/// only.
#[verifier::external_body]
fn regex_check(pattern: &str) -> (res: Result<(), regex::Error>)
    ensures
        res is Ok == is_regex(pattern@),
{
    regex::Regex::new(pattern).map(|_| ())
}

/// `Regex::replace` replaces the leftmost match, capture groups can be
/// referenced by the template. There is nothing if the pattern is invalid.
#[verifier::external_body]
fn regex_replace(pattern: &str, haystack: &str, template: &str) -> (res: Option<String>)
    ensures
        res is Some == is_regex(pattern@),
        res matches Some(text) ==> text@ == regex_replaced(pattern@, haystack@, template@),
{
    regex::Regex::new(pattern).ok().map(|regex| regex.replace(haystack, template).into())
}

/// A pattern cannot be used.
#[derive(Debug)]
pub struct InvalidPattern {
    pub reason: regex::Error,
}

impl PerActorKey {
    /// Combines keys by the pattern, fails if it's not a regular expression.
    pub fn replacement(pattern: String, template: String) -> (res: Result<
        PerActorKey,
        InvalidPattern,
    >)
        ensures
            res is Ok <==> is_regex(pattern@),
            res matches Ok(this) ==> this == PerActorKey::Replacement(pattern, template),
    {
        match regex_check(pattern.as_str()) {
            Ok(_) => Ok(PerActorKey::Replacement(pattern, template)),
            Err(reason) => Err(InvalidPattern { reason }),
        }
    }

    pub open spec fn spec_is_enabled(&self) -> bool {
        match self {
            PerActorKey::Bool(flag) => *flag,
            PerActorKey::Replacement(_, _) => true,
        }
    }

    pub fn is_enabled(&self) -> (res: bool)
        ensures
            res == self.spec_is_enabled(),
    {
        match self {
            PerActorKey::Bool(flag) => *flag,
            PerActorKey::Replacement(_, _) => true,
        }
    }

    /// The key that metrics are produced with, `None` if the actor's one.
    pub open spec fn spec_key(&self, actor_key: Seq<char>) -> Option<Seq<char>> {
        match self {
            PerActorKey::Bool(_) => None,
            PerActorKey::Replacement(pattern, template) => if is_regex(pattern@) {
                Some(regex_replaced(pattern@, actor_key, template@))
            } else {
                None
            },
        }
    }

    pub fn key(&self, actor_key: &str) -> (res: Option<String>)
        ensures
            match self.spec_key(actor_key@) {
                Some(key) => res matches Some(text) && text@ == key,
                None => res is None,
            },
    {
        match self {
            PerActorKey::Bool(_) => None,
            PerActorKey::Replacement(pattern, template) => regex_replace(
                pattern.as_str(),
                actor_key,
                template.as_str(),
            ),
        }
    }
}

impl Default for TelemetryConfig {
    fn default() -> (this: TelemetryConfig)
        ensures
            this.per_actor_group,
            this.per_actor_key == PerActorKey::Bool(false),
    {
        TelemetryConfig { per_actor_group: true, per_actor_key: PerActorKey::Bool(false) }
    }
}

// === Laws ===

/// Metrics are produced keywise unless it's disabled. Keys are replaced only by a
/// pattern, and only if it's a regular expression.
pub proof fn keys_are_replaced_by_pattern(
    flag: bool,
    pattern: String,
    template: String,
    actor_key: &str,
    made: Result<PerActorKey, InvalidPattern>,
    default: TelemetryConfig,
    a: bool,
    b: bool,
    x: Option<String>,
    y: Option<String>,
)
    requires
        call_ensures(PerActorKey::is_enabled, (&PerActorKey::Bool(flag),), a),
        call_ensures(PerActorKey::is_enabled, (&PerActorKey::Replacement(pattern, template),), b),
        call_ensures(PerActorKey::key, (&PerActorKey::Bool(flag), actor_key), x),
        call_ensures(
            PerActorKey::key,
            (&PerActorKey::Replacement(pattern, template), actor_key),
            y,
        ),
        call_ensures(PerActorKey::replacement, (pattern, template), made),
        call_ensures(<TelemetryConfig as Default>::default, (), default),
    ensures
        a == flag && b,
        x is None,
        y is Some <==> is_regex(pattern@),
        y is Some ==> y->0@ == regex_replaced(pattern@, actor_key@, template@),
        made is Ok <==> is_regex(pattern@),
        made is Ok ==> made->Ok_0 == PerActorKey::Replacement(pattern, template),
        default.per_actor_group && default.per_actor_key == PerActorKey::Bool(false),
{
}

} // verus!
