use elfo::dumping;
use elfo::logging::Level;
use elfo::permissions::{AtomicPermissions, Permissions, DUMPING_CLASSES};

#[test]
fn logging_flags_work() {
    let mut perm = Permissions::default();

    assert!(!perm.is_logging_enabled(Level::Error));
    assert!(!perm.is_logging_enabled(Level::Trace));

    perm.set_logging_enabled(Some(Level::Info));
    assert!(perm.is_logging_enabled(Level::Error));
    assert!(perm.is_logging_enabled(Level::Warn));
    assert!(perm.is_logging_enabled(Level::Info));
    assert!(!perm.is_logging_enabled(Level::Debug));
    assert!(!perm.is_logging_enabled(Level::Trace));

    perm.set_logging_enabled(Some(Level::Error));
    assert!(perm.is_logging_enabled(Level::Error));
    assert!(!perm.is_logging_enabled(Level::Warn));
    assert!(!perm.is_logging_enabled(Level::Info));
    assert!(!perm.is_logging_enabled(Level::Debug));
    assert!(!perm.is_logging_enabled(Level::Trace));

    perm.set_logging_enabled(Some(Level::Trace));
    assert!(perm.is_logging_enabled(Level::Error));
    assert!(perm.is_logging_enabled(Level::Warn));
    assert!(perm.is_logging_enabled(Level::Info));
    assert!(perm.is_logging_enabled(Level::Debug));
    assert!(perm.is_logging_enabled(Level::Trace));

    perm.set_logging_enabled(None);
    assert!(!perm.is_logging_enabled(Level::Error));
    assert!(!perm.is_logging_enabled(Level::Trace));
}

#[test]
fn telemetry_flags_work() {
    let mut perm = Permissions::default();

    assert!(!perm.is_telemetry_per_actor_group_enabled());
    assert!(!perm.is_telemetry_per_actor_key_enabled());

    perm.set_telemetry_per_actor_key_enabled(true);
    assert!(!perm.is_telemetry_per_actor_group_enabled());
    assert!(perm.is_telemetry_per_actor_key_enabled());

    perm.set_telemetry_per_actor_group_enabled(true);
    assert!(perm.is_telemetry_per_actor_group_enabled());
    assert!(perm.is_telemetry_per_actor_key_enabled());

    perm.set_telemetry_per_actor_key_enabled(false);
    assert!(perm.is_telemetry_per_actor_group_enabled());
    assert!(!perm.is_telemetry_per_actor_key_enabled());

    perm.set_telemetry_per_actor_group_enabled(false);
    assert!(!perm.is_telemetry_per_actor_group_enabled());
    assert!(!perm.is_telemetry_per_actor_key_enabled());
}

#[test]
fn dumping_flags_work() {
    let mut perm = Permissions::default();

    assert!(!perm.is_dumping_enabled(0, dumping::Level::Normal));
    assert!(!perm.is_dumping_enabled(10, dumping::Level::Normal));

    // Only default.
    // Order of groups are shuffled to check that the order doesn't matter.

    perm.set_dumping_enabled(None, vec![]);
    assert!(!perm.is_dumping_enabled(DUMPING_CLASSES as u8, dumping::Level::Normal));

    for class_no in 0..(DUMPING_CLASSES as u8) {
        assert!(!perm.is_dumping_enabled(class_no, dumping::Level::Normal));
        assert!(!perm.is_dumping_enabled(class_no, dumping::Level::Verbose));
        assert!(!perm.is_dumping_enabled(class_no, dumping::Level::Total));
        assert!(!perm.is_dumping_enabled(class_no, dumping::Level::Never));
    }

    perm.set_dumping_enabled(Some(dumping::Level::Total), vec![]);
    assert!(!perm.is_dumping_enabled(DUMPING_CLASSES as u8, dumping::Level::Normal));

    for class_no in 0..(DUMPING_CLASSES as u8) {
        assert!(perm.is_dumping_enabled(class_no, dumping::Level::Normal));
        assert!(perm.is_dumping_enabled(class_no, dumping::Level::Verbose));
        assert!(perm.is_dumping_enabled(class_no, dumping::Level::Total));
        assert!(!perm.is_dumping_enabled(class_no, dumping::Level::Never));
    }

    perm.set_dumping_enabled(Some(dumping::Level::Normal), vec![]);
    assert!(!perm.is_dumping_enabled(DUMPING_CLASSES as u8, dumping::Level::Normal));

    for class_no in 0..(DUMPING_CLASSES as u8) {
        assert!(perm.is_dumping_enabled(class_no, dumping::Level::Normal));
        assert!(!perm.is_dumping_enabled(class_no, dumping::Level::Verbose));
        assert!(!perm.is_dumping_enabled(class_no, dumping::Level::Total));
        assert!(!perm.is_dumping_enabled(class_no, dumping::Level::Never));
    }

    perm.set_dumping_enabled(Some(dumping::Level::Verbose), vec![]);
    assert!(!perm.is_dumping_enabled(DUMPING_CLASSES as u8, dumping::Level::Normal));

    for class_no in 0..(DUMPING_CLASSES as u8) {
        assert!(perm.is_dumping_enabled(class_no, dumping::Level::Normal));
        assert!(perm.is_dumping_enabled(class_no, dumping::Level::Verbose));
        assert!(!perm.is_dumping_enabled(class_no, dumping::Level::Total));
        assert!(!perm.is_dumping_enabled(class_no, dumping::Level::Never));
    }

    // Default + overrides.

    let overrides = vec![
        (0, Some(dumping::Level::Total)),
        (7, Some(dumping::Level::Verbose)),
        (8, None),
        ((DUMPING_CLASSES - 1) as u8, Some(dumping::Level::Verbose)),
        (DUMPING_CLASSES as u8, Some(dumping::Level::Total)), // should be ignored
    ];

    perm.set_dumping_enabled(Some(dumping::Level::Normal), overrides.clone());
    assert!(!perm.is_dumping_enabled(DUMPING_CLASSES as u8, dumping::Level::Normal));

    for class_no in 0..(DUMPING_CLASSES as u8) {
        if overrides.iter().any(|(no, _)| *no == class_no) {
            continue;
        }

        assert!(perm.is_dumping_enabled(class_no, dumping::Level::Normal));
        assert!(!perm.is_dumping_enabled(class_no, dumping::Level::Verbose));
        assert!(!perm.is_dumping_enabled(class_no, dumping::Level::Total));
        assert!(!perm.is_dumping_enabled(class_no, dumping::Level::Never));
    }

    assert!(perm.is_dumping_enabled(0, dumping::Level::Normal));
    assert!(perm.is_dumping_enabled(0, dumping::Level::Verbose));
    assert!(perm.is_dumping_enabled(0, dumping::Level::Total));
    assert!(perm.is_dumping_enabled(7, dumping::Level::Normal));
    assert!(perm.is_dumping_enabled(7, dumping::Level::Verbose));
    assert!(!perm.is_dumping_enabled(7, dumping::Level::Total));
    assert!(!perm.is_dumping_enabled(8, dumping::Level::Normal));
    assert!(!perm.is_dumping_enabled(8, dumping::Level::Verbose));
    assert!(!perm.is_dumping_enabled(8, dumping::Level::Total));
    assert!(perm.is_dumping_enabled((DUMPING_CLASSES - 1) as u8, dumping::Level::Normal));
    assert!(perm.is_dumping_enabled((DUMPING_CLASSES - 1) as u8, dumping::Level::Verbose));
    assert!(!perm.is_dumping_enabled((DUMPING_CLASSES - 1) as u8, dumping::Level::Total));
}

#[test]
fn settings_dont_affect_each_other() {
    let mut perm = Permissions::default();
    perm.set_logging_enabled(Some(Level::Warn));
    perm.set_dumping_enabled(Some(dumping::Level::Verbose), vec![(3, None)]);
    perm.set_telemetry_per_actor_group_enabled(true);

    assert!(perm.is_logging_enabled(Level::Warn));
    assert!(!perm.is_logging_enabled(Level::Info));
    assert!(perm.is_dumping_enabled(2, dumping::Level::Verbose));
    assert!(!perm.is_dumping_enabled(3, dumping::Level::Normal));
    assert!(perm.is_telemetry_per_actor_group_enabled());
    assert!(!perm.is_telemetry_per_actor_key_enabled());

    let mut cell = AtomicPermissions::default();
    cell.store(perm);
    assert_eq!(cell.load().bits, perm.bits);
}
