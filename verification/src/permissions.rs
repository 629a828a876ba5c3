//! What an actor is allowed to produce: logs, dumps and metrics.

use vstd::prelude::*;

use crate::{dumping, logging};

verus! {

// Layout:
// ```text
// 64     16      7  6  5  4  3  2  1  0
//  +------+------+--+--+--+--+--+--+--+
//  |DdDdDd|      |MK|MG|LE|LW|LI|LD|LT|
//  +------+------+--+--+--+--+--+--+--+
//     |       |   |   |  |  |  |  |  +--- logging: Trace level
//     |       |   |   |  |  |  |  +------ logging: Debug level
//     |       |   |   |  |  |  +--------- logging: Info level
//     |       |   |   |  |  +------------ logging: Warn level
//     |       |   |   |  +--------------- logging: Error level
//     |       |   |   +------------------ metrics: per actor group
//     |       |   +---------------------- metrics: per actor key
//     |       +-------------------------- <reserved>
//     +---------------------------------- dumping (2 bits per class):
//                                           0 = Off     2 = Verbose
//                                           1 = Normal  3 = Total
// ```
pub const LOGGING_MASK: u64 = 0b0001_1111;

pub const TELEMETRY_PER_ACTOR_GROUP_IS_ENABLED: u64 = 0b0010_0000;

pub const TELEMETRY_PER_ACTOR_KEY_IS_ENABLED: u64 = 0b0100_0000;

pub const DUMPING_CLASSES: u32 = 24;

pub const DUMPING_BITS_PER_CLASS: u32 = 2;

pub const DUMPING_CLASS_MASK: u64 = 3;

pub const DUMPING_SHIFT: u32 = 16;

pub const DUMPING_MASK: u64 = 0xffff_ffff_ffff_0000;

/// The cell permissions are shared through.
#[derive(Debug, Clone, Copy)]
pub struct AtomicPermissions {
    pub cell: Permissions,
}

impl Default for AtomicPermissions {
    fn default() -> (this: AtomicPermissions)
        ensures
            this.cell.bits == 0,
    {
        AtomicPermissions { cell: Permissions { bits: 0 } }
    }
}

impl AtomicPermissions {
    /// Replaces the stored permissions.
    pub fn store(&mut self, perm: Permissions)
        ensures
            final(self).cell == perm,
    {
        self.cell = perm;
    }

    /// Returns the last stored permissions.
    pub fn load(&self) -> (perm: Permissions)
        ensures
            perm == self.cell,
    {
        self.cell
    }
}

#[derive(Debug, Clone, Copy, PartialEq, Eq, Structural)]
pub struct Permissions {
    pub bits: u64,
}

/// Position of a logging level among the logging bits.
pub open spec fn log_level_value(level: logging::Level) -> u32 {
    match level {
        logging::Level::Trace => 0,
        logging::Level::Debug => 1,
        logging::Level::Info => 2,
        logging::Level::Warn => 3,
        logging::Level::Error => 4,
    }
}

/// Verbosity of a dumping level.
pub open spec fn dump_level_value(level: dumping::Level) -> u64 {
    match level {
        dumping::Level::Normal => 1,
        dumping::Level::Verbose => 2,
        dumping::Level::Total => 3,
        dumping::Level::Never => 4,
    }
}

/// The maximum allowed verbosity, 0 if nothing is allowed.
pub open spec fn dump_filter_value(level: Option<dumping::Level>) -> u64 {
    match level {
        Some(level) => dump_level_value(level),
        None => 0,
    }
}

/// The level that is set for a class: the last override of it or the default.
pub open spec fn level_of_class(
    default: Option<dumping::Level>,
    overrides: Seq<(u8, Option<dumping::Level>)>,
    class_no: int,
) -> Option<dumping::Level>
    decreases overrides.len(),
{
    if overrides.len() == 0 {
        default
    } else if overrides.last().0 == class_no {
        overrides.last().1
    } else {
        level_of_class(default, overrides.drop_last(), class_no)
    }
}

impl Default for Permissions {
    /// Nothing is allowed by default.
    fn default() -> (this: Permissions)
        ensures
            this.bits == 0,
    {
        Permissions { bits: 0 }
    }
}

impl Permissions {
    /// Whether events of the level are logged.
    pub open spec fn logs(self, level: logging::Level) -> bool {
        (self.bits >> log_level_value(level)) & 1 == 1
    }

    /// The maximum verbosity allowed for the class.
    pub open spec fn dump_limit(self, class_no: int) -> u64
        recommends
            0 <= class_no < DUMPING_CLASSES,
    {
        (self.bits >> ((16 + 2 * class_no) as u32)) & 3
    }

    /// Whether messages of the class are dumped on the level.
    pub open spec fn dumps(self, class_no: int, level: dumping::Level) -> bool {
        0 <= class_no < DUMPING_CLASSES && self.dump_limit(class_no) >= dump_level_value(level)
    }

    pub open spec fn measures_per_group(self) -> bool {
        (self.bits >> 5u32) & 1 == 1
    }

    pub open spec fn measures_per_key(self) -> bool {
        (self.bits >> 6u32) & 1 == 1
    }

    /// Whether everything out of `mask` is the same.
    pub open spec fn same_except(self, other: Permissions, mask: u64) -> bool {
        self.bits & !mask == other.bits & !mask
    }

    pub fn is_logging_enabled(&self, level: logging::Level) -> (res: bool)
        ensures
            res == self.logs(level),
    {
        let value: u32 = log_level_to_value(level);
        let bits: u64 = self.bits;
        let mask: u64 = 1 << value;
        assert((bits & (1u64 << value) != 0) == ((bits >> value) & 1 == 1)) by (bit_vector)
            requires
                value < 64,
        ;
        bits & mask != 0
    }

    /// There are no classes above the last one, so nothing of them is dumped.
    pub fn is_dumping_enabled(&self, class_no: u8, level: dumping::Level) -> (res: bool)
        requires
            class_no <= DUMPING_CLASSES,
        ensures
            res == self.dumps(class_no as int, level),
    {
        if class_no as u32 == DUMPING_CLASSES {
            return false;
        }
        let shift: u32 = DUMPING_SHIFT + DUMPING_BITS_PER_CLASS * (class_no as u32);
        let allowed: u64 = (self.bits >> shift) & DUMPING_CLASS_MASK;
        let value: u64 = dump_level_to_value(level);
        allowed >= value
    }

    pub fn is_telemetry_per_actor_group_enabled(&self) -> (res: bool)
        ensures
            res == self.measures_per_group(),
    {
        let bits: u64 = self.bits;
        assert((bits & 0b0010_0000 != 0) == ((bits >> 5u32) & 1 == 1)) by (bit_vector);
        bits & TELEMETRY_PER_ACTOR_GROUP_IS_ENABLED != 0
    }

    pub fn is_telemetry_per_actor_key_enabled(&self) -> (res: bool)
        ensures
            res == self.measures_per_key(),
    {
        let bits: u64 = self.bits;
        assert((bits & 0b0100_0000 != 0) == ((bits >> 6u32) & 1 == 1)) by (bit_vector);
        bits & TELEMETRY_PER_ACTOR_KEY_IS_ENABLED != 0
    }

    /// `None` is to disable logging at all.
    pub fn set_logging_enabled(&mut self, max_level: Option<logging::Level>)
        ensures
            forall|level: logging::Level| #[trigger]
                final(self).logs(level) == match max_level {
                    Some(max_level) => log_level_value(level) >= log_level_value(max_level),
                    None => false,
                },
            final(self).same_except(*old(self), LOGGING_MASK),
    {
        let old_bits: u64 = self.bits;
        let cleared: u64 = old_bits & !LOGGING_MASK;
        self.bits = cleared;

        match max_level {
            Some(max_level) => {
                let max_value: u32 = log_level_to_value(max_level);
                let power: u64 = 1 << max_value;
                assert(power >= 1) by (bit_vector)
                    requires
                        power == 1u64 << max_value,
                        max_value <= 4,
                ;
                let disabled: u64 = power - 1;
                let new_bits: u64 = cleared | LOGGING_MASK & !disabled;
                self.bits = new_bits;
                assert(new_bits & !0b0001_1111 == old_bits & !0b0001_1111 && forall|value: u32|
                    value <= 4 ==> ((#[trigger] (new_bits >> value)) & 1 == 1) == (value
                        >= max_value)) by (bit_vector)
                    requires
                        max_value <= 4,
                        disabled == (1u64 << max_value) - 1,
                        new_bits == (old_bits & !0b0001_1111) | 0b0001_1111 & !disabled,
                ;
            },
            None => {
                assert((old_bits & !0b0001_1111) & !0b0001_1111 == old_bits & !0b0001_1111
                    && forall|value: u32|
                    value <= 4 ==> (#[trigger] ((old_bits & !0b0001_1111) >> value)) & 1 == 0)
                    by (bit_vector);
            },
        }
    }

    /// Allows a class up to the level of its last override, or up to `default`
    /// if there are no ones. `None` is to disable dumping.
    pub fn set_dumping_enabled(
        &mut self,
        default: Option<dumping::Level>,
        overrides: Vec<(u8, Option<dumping::Level>)>,
    )
        requires
            default != Some(dumping::Level::Never),
            forall|i: int|
                0 <= i < overrides.len() ==> (#[trigger] overrides[i]).0 <= DUMPING_CLASSES
                    && overrides[i].1 != Some(dumping::Level::Never),
        ensures
            forall|class_no: int|
                0 <= class_no < DUMPING_CLASSES ==> #[trigger] final(self).dump_limit(class_no)
                    == dump_filter_value(level_of_class(default, overrides@, class_no)),
            final(self).same_except(*old(self), DUMPING_MASK),
    {
        let old_bits: u64 = self.bits;
        let cleared: u64 = old_bits & !DUMPING_MASK;
        let mut bits: u64 = 0;

        // Fill with the default level.
        let filler: u64 = dump_level_filter_to_value(default);
        let mut filled: u32 = 0;
        while filled < DUMPING_CLASSES
            invariant
                filled <= DUMPING_CLASSES,
                filler <= 3,
                forall|c: u32|
                    c < filled ==> #[trigger] class_bits(bits, c) == filler,
            decreases DUMPING_CLASSES - filled,
        {
            let ghost prev = bits;
            bits = bits << DUMPING_BITS_PER_CLASS;
            bits = bits | filler;
            filled = filled + 1;

            assert forall|c: u32| c < filled implies #[trigger] class_bits(bits, c) == filler by {
                lemma_append_class(prev, filler, c);
                if c > 0 {
                    assert(class_bits(prev, (c - 1) as u32) == filler);
                }
            }
        }

        // Override with the specified levels.
        let mut i: usize = 0;
        assert(overrides@.take(0).len() == 0);
        while i < overrides.len()
            invariant
                i <= overrides.len(),
                forall|i: int|
                    0 <= i < overrides.len() ==> (#[trigger] overrides[i]).0 <= DUMPING_CLASSES
                        && overrides[i].1 != Some(dumping::Level::Never),
                forall|c: u32|
                    c < DUMPING_CLASSES ==> #[trigger] class_bits(bits, c) == dump_filter_value(
                        level_of_class(default, overrides@.take(i as int), c as int),
                    ),
            decreases overrides.len() - i,
        {
            let (class_no, level) = overrides[i];
            let ghost prev = bits;
            let shift: u32 = DUMPING_BITS_PER_CLASS * (class_no as u32);
            let value: u64 = dump_level_filter_to_value(level);
            bits = bits & !(DUMPING_CLASS_MASK << shift);
            bits = bits | value << shift;

            assert forall|c: u32| c < DUMPING_CLASSES implies #[trigger] class_bits(bits, c)
                == dump_filter_value(
                level_of_class(default, overrides@.take(i + 1), c as int),
            ) by {
                lemma_override_class(prev, value, class_no as u32, c);
                assert(class_bits(prev, c) == dump_filter_value(
                    level_of_class(default, overrides@.take(i as int), c as int),
                ));
                assert(overrides@.take(i + 1).drop_last() =~= overrides@.take(i as int));
                assert(overrides@.take(i + 1).last() == overrides@[i as int]);
            }
            i += 1;
        }
        assert(overrides@.take(i as int) =~= overrides@);

        self.bits = cleared | bits << DUMPING_SHIFT;

        let ghost new_bits = self.bits;
        assert(new_bits & !0xffff_ffff_ffff_0000 == old_bits & !0xffff_ffff_ffff_0000)
            by (bit_vector)
            requires
                new_bits == (old_bits & !0xffff_ffff_ffff_0000) | bits << 16u32,
        ;
        assert forall|class_no: int| 0 <= class_no < DUMPING_CLASSES implies #[trigger] self.dump_limit(
            class_no,
        ) == dump_filter_value(level_of_class(default, overrides@, class_no)) by {
            let c = class_no as u32;
            let shift = (16 + 2 * c) as u32;
            let low_shift = (2 * c) as u32;
            assert((new_bits >> shift) & 3 == (bits >> low_shift) & 3) by (bit_vector)
                requires
                    new_bits == (old_bits & !0xffff_ffff_ffff_0000) | bits << 16u32,
                    shift == low_shift + 16,
                    low_shift <= 46,
            ;
            assert(class_bits(bits, c) == dump_filter_value(
                level_of_class(default, overrides@, c as int),
            ));
        }
    }

    pub fn set_telemetry_per_actor_group_enabled(&mut self, is_enabled: bool)
        ensures
            final(self).measures_per_group() == is_enabled,
            final(self).same_except(*old(self), TELEMETRY_PER_ACTOR_GROUP_IS_ENABLED),
    {
        let bits: u64 = self.bits;
        assert((((bits | 0x20) >> 5u32) & 1 == 1) && (((bits & !0x20) >> 5u32) & 1 == 0) && ((bits
            | 0x20) & !0x20 == bits & !0x20) && ((bits & !0x20) & !0x20 == bits & !0x20))
            by (bit_vector);
        if is_enabled {
            self.bits = bits | TELEMETRY_PER_ACTOR_GROUP_IS_ENABLED;
        } else {
            self.bits = bits & !TELEMETRY_PER_ACTOR_GROUP_IS_ENABLED;
        }
    }

    pub fn set_telemetry_per_actor_key_enabled(&mut self, is_enabled: bool)
        ensures
            final(self).measures_per_key() == is_enabled,
            final(self).same_except(*old(self), TELEMETRY_PER_ACTOR_KEY_IS_ENABLED),
    {
        let bits: u64 = self.bits;
        assert((((bits | 0x40) >> 6u32) & 1 == 1) && (((bits & !0x40) >> 6u32) & 1 == 0) && ((bits
            | 0x40) & !0x40 == bits & !0x40) && ((bits & !0x40) & !0x40 == bits & !0x40))
            by (bit_vector);
        if is_enabled {
            self.bits = bits | TELEMETRY_PER_ACTOR_KEY_IS_ENABLED;
        } else {
            self.bits = bits & !TELEMETRY_PER_ACTOR_KEY_IS_ENABLED;
        }
    }
}

fn log_level_to_value(level: logging::Level) -> (value: u32)
    ensures
        value == log_level_value(level),
        value <= 4,
{
    match level {
        logging::Level::Trace => 0,
        logging::Level::Debug => 1,
        logging::Level::Info => 2,
        logging::Level::Warn => 3,
        logging::Level::Error => 4,
    }
}

fn dump_level_to_value(level: dumping::Level) -> (value: u64)
    ensures
        value == dump_level_value(level),
{
    match level {
        dumping::Level::Normal => 1,
        dumping::Level::Verbose => 2,
        dumping::Level::Total => 3,
        dumping::Level::Never => 4,
    }
}

fn dump_level_filter_to_value(level: Option<dumping::Level>) -> (value: u64)
    requires
        level != Some(dumping::Level::Never),
    ensures
        value == dump_filter_value(level),
        value <= 3,
{
    match level {
        Some(level) => dump_level_to_value(level),
        None => 0,
    }
}

/// The two bits of a class before they are moved to their place.
spec fn class_bits(bits: u64, class_no: u32) -> u64 {
    (bits >> ((2 * class_no) as u32)) & 3
}

proof fn lemma_append_class(bits: u64, value: u64, class_no: u32)
    requires
        value <= 3,
        class_no < 24,
    ensures
        class_no == 0 ==> class_bits((bits << 2u32) | value, class_no) == value,
        class_no > 0 ==> class_bits((bits << 2u32) | value, class_no) == class_bits(
            bits,
            (class_no - 1) as u32,
        ),
{
    let shift = (2 * class_no) as u32;
    if class_no == 0 {
        assert((((bits << 2u32) | value) >> 0u32) & 3 == value) by (bit_vector)
            requires
                value <= 3,
        ;
    } else {
        let prev_shift = (2 * (class_no - 1)) as u32;
        assert((((bits << 2u32) | value) >> shift) & 3 == (bits >> prev_shift) & 3) by (bit_vector)
            requires
                value <= 3,
                shift == prev_shift + 2,
                shift <= 46,
        ;
    }
}

proof fn lemma_override_class(bits: u64, value: u64, overridden: u32, class_no: u32)
    requires
        value <= 3,
        overridden <= 24,
        class_no < 24,
    ensures
        class_bits(
            bits & !(3u64 << ((2 * overridden) as u32)) | value << ((2 * overridden) as u32),
            class_no,
        ) == if class_no == overridden {
            value
        } else {
            class_bits(bits, class_no)
        },
{
    let shift = (2 * overridden) as u32;
    let class_shift = (2 * class_no) as u32;
    assert(((bits & !(3u64 << shift) | value << shift) >> class_shift) & 3 == if class_shift
        == shift {
        value
    } else {
        (bits >> class_shift) & 3
    }) by (bit_vector)
        requires
            value <= 3,
            shift <= 48,
            class_shift <= 46,
            shift % 2 == 0,
            class_shift % 2 == 0,
    ;
}

// === Laws ===

/// Nothing is allowed until it's configured.
pub proof fn nothing_is_allowed_by_default(
    level: logging::Level,
    class_no: int,
    dump_level: dumping::Level,
)
    ensures
        ({
            let perm = Permissions { bits: 0 };
            &&& !perm.logs(level)
            &&& !perm.dumps(class_no, dump_level)
            &&& !perm.measures_per_group()
            &&& !perm.measures_per_key()
        }),
{
    let log_shift = log_level_value(level);
    assert((0u64 >> log_shift) & 1 == 0) by (bit_vector);
    assert((0u64 >> 5u32) & 1 == 0) by (bit_vector);
    assert((0u64 >> 6u32) & 1 == 0) by (bit_vector);
    let dump_shift = (16 + 2 * class_no) as u32;
    assert((0u64 >> dump_shift) & 3 == 0) by (bit_vector);
}

/// Settings of one kind never affect settings of other kinds.
pub proof fn settings_are_independent(a: Permissions, b: Permissions)
    ensures
        a.same_except(b, LOGGING_MASK) ==> {
            &&& a.measures_per_group() == b.measures_per_group()
            &&& a.measures_per_key() == b.measures_per_key()
            &&& forall|class_no: int|
                0 <= class_no < DUMPING_CLASSES ==> #[trigger] a.dump_limit(class_no)
                    == b.dump_limit(class_no)
        },
        a.same_except(b, DUMPING_MASK) ==> {
            &&& a.measures_per_group() == b.measures_per_group()
            &&& a.measures_per_key() == b.measures_per_key()
            &&& forall|level: logging::Level| #[trigger] a.logs(level) == b.logs(level)
        },
        a.same_except(b, TELEMETRY_PER_ACTOR_GROUP_IS_ENABLED) ==> {
            &&& a.measures_per_key() == b.measures_per_key()
            &&& forall|level: logging::Level| #[trigger] a.logs(level) == b.logs(level)
            &&& forall|class_no: int|
                0 <= class_no < DUMPING_CLASSES ==> #[trigger] a.dump_limit(class_no)
                    == b.dump_limit(class_no)
        },
        a.same_except(b, TELEMETRY_PER_ACTOR_KEY_IS_ENABLED) ==> {
            &&& a.measures_per_group() == b.measures_per_group()
            &&& forall|level: logging::Level| #[trigger] a.logs(level) == b.logs(level)
            &&& forall|class_no: int|
                0 <= class_no < DUMPING_CLASSES ==> #[trigger] a.dump_limit(class_no)
                    == b.dump_limit(class_no)
        },
{
    let x = a.bits;
    let y = b.bits;
    lemma_unmasked_bits(x, y, 0x1f);
    lemma_unmasked_bits(x, y, 0xffff_ffff_ffff_0000);
    lemma_unmasked_bits(x, y, 0x20);
    lemma_unmasked_bits(x, y, 0x40);
    lemma_unmasked_classes(x, y);
}

proof fn lemma_unmasked_bits(x: u64, y: u64, mask: u64)
    by (bit_vector)
    requires
        mask == 0x1f || mask == 0x20 || mask == 0x40 || mask == 0xffff_ffff_ffff_0000,
    ensures
        x & !mask == y & !mask ==> {
            &&& (mask != 0x20 ==> (x >> 5u32) & 1 == (y >> 5u32) & 1)
            &&& (mask != 0x40 ==> (x >> 6u32) & 1 == (y >> 6u32) & 1)
            &&& (mask != 0x1f ==> (x >> 0u32) & 1 == (y >> 0u32) & 1)
            &&& (mask != 0x1f ==> (x >> 1u32) & 1 == (y >> 1u32) & 1)
            &&& (mask != 0x1f ==> (x >> 2u32) & 1 == (y >> 2u32) & 1)
            &&& (mask != 0x1f ==> (x >> 3u32) & 1 == (y >> 3u32) & 1)
            &&& (mask != 0x1f ==> (x >> 4u32) & 1 == (y >> 4u32) & 1)
        },
{
}

proof fn lemma_unmasked_classes(x: u64, y: u64)
    by (bit_vector)
    ensures
        (x & !0x1f == y & !0x1f || x & !0x20 == y & !0x20 || x & !0x40 == y & !0x40) ==> forall|
            shift: u32,
        |
            16 <= shift <= 62 ==> (#[trigger] (x >> shift)) & 3 == (y >> shift) & 3,
{
}

/// If a level is logged, all more important levels are also logged.
pub proof fn enabled_levels_are_upward_closed(
    perm: Permissions,
    max_level: logging::Level,
    a: logging::Level,
    b: logging::Level,
)
    requires
        forall|level: logging::Level| #[trigger]
            perm.logs(level) == (log_level_value(level) >= log_level_value(max_level)),
        perm.logs(a),
        log_level_value(a) <= log_level_value(b),
    ensures
        perm.logs(b),
{
}

/// If a class is dumped on a level, it's dumped on all less verbose ones. The
/// `Never` level is never dumped.
pub proof fn dumping_levels_are_downward_closed(
    perm: Permissions,
    class_no: int,
    a: dumping::Level,
    b: dumping::Level,
)
    ensures
        perm.dumps(class_no, a) && dump_level_value(b) <= dump_level_value(a) ==> perm.dumps(
            class_no,
            b,
        ),
        !perm.dumps(class_no, dumping::Level::Never),
{
    let bits = perm.bits;
    let shift = (16 + 2 * class_no) as u32;
    assert((bits >> shift) & 3 <= 3) by (bit_vector);
}

proof fn lemma_logging_set(
    args: (&mut Permissions, Option<logging::Level>),
    level: logging::Level,
)
    requires
        call_ensures(Permissions::set_logging_enabled, args, ()),
    ensures
        final(args.0).logs(level) == match args.1 {
            Some(max_level) => log_level_value(level) >= log_level_value(max_level),
            None => false,
        },
        final(args.0).same_except(*old(args.0), LOGGING_MASK),
{
}

/// Events are logged if they aren't more verbose than the configured level.
pub proof fn verbose_events_are_not_logged(
    perm: &mut Permissions,
    max_level: Option<logging::Level>,
    level: logging::Level,
    res: bool,
)
    requires
        call_ensures(Permissions::set_logging_enabled, (perm, max_level), ()),
        call_ensures(Permissions::is_logging_enabled, (final(perm), level), res),
    ensures
        max_level is None ==> !res,
        level is Error ==> (res <==> max_level is Some),
        level is Warn ==> (res <==> max_level is Some && max_level->0 != logging::Level::Error),
        level is Info ==> (res <==> max_level == Some(logging::Level::Info) || max_level == Some(
            logging::Level::Debug,
        ) || max_level == Some(logging::Level::Trace)),
        level is Debug ==> (res <==> max_level == Some(logging::Level::Debug) || max_level == Some(
            logging::Level::Trace,
        )),
        level is Trace ==> (res <==> max_level == Some(logging::Level::Trace)),
{
    lemma_logging_set((perm, max_level), level);
}

proof fn lemma_dumping_set(
    args: (
        &mut Permissions,
        Option<dumping::Level>,
        Vec<(u8, Option<dumping::Level>)>,
    ),
    class_no: int,
)
    requires
        call_ensures(Permissions::set_dumping_enabled, args, ()),
        0 <= class_no < DUMPING_CLASSES,
    ensures
        final(args.0).dump_limit(class_no) == dump_filter_value(
            level_of_class(args.1, args.2@, class_no),
        ),
        final(args.0).same_except(*old(args.0), DUMPING_MASK),
{
}

/// Messages are dumped if they aren't more verbose than the configured level of their
/// class. There are 24 classes.
pub proof fn verbose_messages_are_not_dumped(
    perm: &mut Permissions,
    default: Option<dumping::Level>,
    class_no: u8,
    level: dumping::Level,
    overrides: Vec<(u8, Option<dumping::Level>)>,
    res: bool,
)
    requires
        overrides@.len() == 0,
        class_no <= 24,
        call_ensures(Permissions::set_dumping_enabled, (perm, default, overrides), ()),
        call_ensures(Permissions::is_dumping_enabled, (final(perm), class_no, level), res),
    ensures
        class_no == 24 ==> !res,
        class_no < 24 && level is Normal ==> (res <==> default is Some),
        class_no < 24 && level is Verbose ==> (res <==> default is Some && default->0
            != dumping::Level::Normal),
        class_no < 24 && level is Total ==> (res <==> default is Some && default->0
            != dumping::Level::Normal && default->0 != dumping::Level::Verbose),
        default is None || default->0 != dumping::Level::Never ==> (level is Never ==> !res),
{
    if class_no < 24 {
        lemma_dumping_set((perm, default, overrides), class_no as int);
    }
}

/// The last override of a class wins: it's as if it's the default level of the class.
/// Other classes aren't affected.
pub proof fn last_override_wins(
    a: &mut Permissions,
    b: &mut Permissions,
    alone: &mut Permissions,
    default: Option<dumping::Level>,
    level: Option<dumping::Level>,
    overridden: u8,
    class_no: u8,
    queried: dumping::Level,
    overrides: Vec<(u8, Option<dumping::Level>)>,
    more: Vec<(u8, Option<dumping::Level>)>,
    nothing: Vec<(u8, Option<dumping::Level>)>,
    x: bool,
    y: bool,
    z: bool,
)
    requires
        class_no < 24,
        more@ == overrides@.push((overridden, level)),
        nothing@.len() == 0,
        call_ensures(Permissions::set_dumping_enabled, (a, default, overrides), ()),
        call_ensures(Permissions::set_dumping_enabled, (b, default, more), ()),
        call_ensures(Permissions::set_dumping_enabled, (alone, level, nothing), ()),
        call_ensures(Permissions::is_dumping_enabled, (final(a), class_no, queried), x),
        call_ensures(Permissions::is_dumping_enabled, (final(b), class_no, queried), y),
        call_ensures(Permissions::is_dumping_enabled, (final(alone), class_no, queried), z),
    ensures
        class_no == overridden ==> y == z,
        class_no != overridden ==> y == x,
{
    lemma_dumping_set((a, default, overrides), class_no as int);
    lemma_dumping_set((b, default, more), class_no as int);
    lemma_dumping_set((alone, level, nothing), class_no as int);
    assert(more@.drop_last() =~= overrides@);
    assert(more@.last() == (overridden, level));
}

/// Every setting can be changed without affecting others, and nothing is allowed by
/// default.
pub proof fn settings_are_set_apart(
    a: &mut Permissions,
    b: &mut Permissions,
    c: &mut Permissions,
    d: &mut Permissions,
    max_level: Option<logging::Level>,
    default: Option<dumping::Level>,
    overrides: Vec<(u8, Option<dumping::Level>)>,
    per_group: bool,
    per_key: bool,
    level: logging::Level,
    class_no: u8,
    dump_level: dumping::Level,
    logs: (bool, bool),
    dumps: (bool, bool),
    group: (bool, bool),
    key: (bool, bool, bool),
)
    requires
        class_no < 24,
        *old(b) == *final(a) && *old(c) == *final(b) && *old(d) == *final(c),
        call_ensures(Permissions::set_logging_enabled, (a, max_level), ()),
        call_ensures(Permissions::set_dumping_enabled, (b, default, overrides), ()),
        call_ensures(Permissions::set_telemetry_per_actor_group_enabled, (c, per_group), ()),
        call_ensures(Permissions::set_telemetry_per_actor_key_enabled, (d, per_key), ()),
        call_ensures(Permissions::is_logging_enabled, (final(a), level), logs.0),
        call_ensures(Permissions::is_logging_enabled, (final(d), level), logs.1),
        call_ensures(Permissions::is_dumping_enabled, (final(b), class_no, dump_level), dumps.0),
        call_ensures(Permissions::is_dumping_enabled, (final(d), class_no, dump_level), dumps.1),
        call_ensures(Permissions::is_telemetry_per_actor_group_enabled, (final(c),), group.0),
        call_ensures(Permissions::is_telemetry_per_actor_group_enabled, (final(d),), group.1),
        call_ensures(Permissions::is_telemetry_per_actor_key_enabled, (old(a),), key.0),
        call_ensures(Permissions::is_telemetry_per_actor_key_enabled, (final(c),), key.1),
        call_ensures(Permissions::is_telemetry_per_actor_key_enabled, (final(d),), key.2),
    ensures
        logs.0 == logs.1,
        dumps.0 == dumps.1,
        group.0 == per_group && group.1 == per_group,
        key.0 == key.1,
        key.2 == per_key,
{
    lemma_logging_set((a, max_level), level);
    lemma_dumping_set((b, default, overrides), class_no as int);
    settings_are_independent(*final(a), *old(a));
    settings_are_independent(*final(b), *old(b));
    settings_are_independent(*final(c), *old(c));
    settings_are_independent(*final(d), *old(d));
    assert(final(b).logs(level) == old(b).logs(level));
    assert(final(c).logs(level) == old(c).logs(level));
    assert(final(d).logs(level) == old(d).logs(level));
    assert(final(c).dump_limit(class_no as int) == old(c).dump_limit(class_no as int));
    assert(final(d).dump_limit(class_no as int) == old(d).dump_limit(class_no as int));
}

/// Stored permissions are loaded, and there are no permissions until they are stored.
pub proof fn stored_permissions_are_loaded(
    fresh: AtomicPermissions,
    none: Permissions,
    cell: &mut AtomicPermissions,
    perm: Permissions,
    loaded: Permissions,
    level: logging::Level,
    class_no: u8,
    dump_level: dumping::Level,
    logs: bool,
    dumps: bool,
    group: bool,
    key: bool,
)
    requires
        class_no <= 24,
        call_ensures(<AtomicPermissions as Default>::default, (), fresh),
        call_ensures(AtomicPermissions::load, (&fresh,), none) || call_ensures(
            <Permissions as Default>::default,
            (),
            none,
        ),
        call_ensures(AtomicPermissions::store, (cell, perm), ()),
        call_ensures(AtomicPermissions::load, (final(cell),), loaded),
        call_ensures(Permissions::is_logging_enabled, (&none, level), logs),
        call_ensures(Permissions::is_dumping_enabled, (&none, class_no, dump_level), dumps),
        call_ensures(Permissions::is_telemetry_per_actor_group_enabled, (&none,), group),
        call_ensures(Permissions::is_telemetry_per_actor_key_enabled, (&none,), key),
    ensures
        loaded == perm,
        !logs && !dumps && !group && !key,
{
    nothing_is_allowed_by_default(level, class_no as int, dump_level);
}

} // verus!
