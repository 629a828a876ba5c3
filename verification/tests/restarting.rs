use elfo::actor::{ActorStatus, ActorStatusKind};
use elfo::restarting::{
    RestartBackoff, RestartMode, RestartParams, RestartParamsConfig, RestartPolicy,
    RestartPolicyConfig, WhenConfig,
};
use elfo::supervisor::backoff::{Backoff, BACKOFF_STEP, MAX_BACKOFF};

const SEC: u128 = 1_000_000_000;

/// `min_backoff * factor ^ power`.
fn scaled(backoff: &RestartBackoff, params: &RestartParams) -> Option<u128> {
    let secs = params.min_backoff as f64 / 1e9;
    let delay = secs * f64::from_bits(params.factor).powf(backoff.power as f64);
    if delay.is_finite() {
        Some((delay * 1e9) as u128)
    } else {
        None
    }
}

fn next(backoff: &mut RestartBackoff, params: &RestartParams, now: u128) -> Option<u128> {
    let scaled = scaled(backoff, params);
    backoff.next(params, now, scaled)
}

#[test]
fn restart_backoff_it_works() {
    let mut now = 0;
    let mut backoff = RestartBackoff::new(now);
    let params = RestartParams::new(5 * SEC, 30 * SEC).max_retries(Some(3));
    // Immediately failed.
    assert_eq!(next(&mut backoff, &params, now), Some(params.min_backoff));
    now += params.min_backoff;
    backoff.start(now);

    // And again.
    assert_eq!(next(&mut backoff, &params, now), Some(2 * params.min_backoff));
    now += 2 * params.min_backoff;
    backoff.start(now);

    // After some, not enough to reset the backoff, time.
    now += params.min_backoff * 2 / 3;
    assert_eq!(next(&mut backoff, &params, now), Some(4 * params.min_backoff));
    now += 3 * params.min_backoff;
    backoff.start(now);

    // After some, enough to reset the backoff, time.
    now += params.min_backoff;
    // The first retry.
    assert_eq!(next(&mut backoff, &params, now), Some(0)); // resetted
    backoff.start(now);

    // After some, not enough to reset the backoff, time.
    now += params.min_backoff * 2 / 3;
    // The second retry.
    assert_eq!(next(&mut backoff, &params, now), Some(params.min_backoff));
    // The third retry.
    assert_eq!(next(&mut backoff, &params, now), Some(2 * params.min_backoff));
    // We reached the limit of reties.
    assert_eq!(next(&mut backoff, &params, now), None);
}

#[test]
fn correctness() {
    let now = 0;
    let mut backoff = RestartBackoff::new(now);
    // Start with zero backoff duration.
    let params = RestartParams::new(0, 0);
    assert_eq!(next(&mut backoff, &params, now), Some(0));
    assert_eq!(next(&mut backoff, &params, now), Some(0));
    assert_eq!(next(&mut backoff, &params, now), Some(0));

    // Then check the transition from zero to nonzero backoff limits.
    let params = RestartParams::new(2 * SEC, 16 * SEC);
    assert_eq!(next(&mut backoff, &params, now), Some(params.min_backoff));
    assert_eq!(next(&mut backoff, &params, now), Some(2 * params.min_backoff));
    assert_eq!(next(&mut backoff, &params, now), Some(4 * params.min_backoff));

    // Decreasing the upper bound results in a reduced subsequent backoff.
    let params = RestartParams::new(3 * SEC, 5 * SEC);
    assert_eq!(next(&mut backoff, &params, now), Some(params.max_backoff));

    // Increasing the lower bound raises the subsequent backoff.
    let params = RestartParams::new(20 * SEC, 30 * SEC);
    assert_eq!(next(&mut backoff, &params, now), Some(params.max_backoff));

    // Limiting the number of retry attempts kicks in.
    let mut backoff = RestartBackoff::new(now);
    let params = RestartParams::new(20 * SEC, 30 * SEC).max_retries(Some(2));
    assert_eq!(next(&mut backoff, &params, now), Some(params.min_backoff));
    assert_eq!(next(&mut backoff, &params, now), Some(params.max_backoff));
    assert_eq!(next(&mut backoff, &params, now), None);
}

#[test]
fn delays_depend_on_history() {
    let params = RestartParams::new(5 * SEC, 100 * SEC).max_retries(Some(3));
    let mut backoff = RestartBackoff::new(0);

    // Failures one by one: powers are 0, 1, 2.
    assert_eq!(next(&mut backoff, &params, 0), Some(5 * SEC));
    backoff.start(10 * SEC);
    assert_eq!(next(&mut backoff, &params, 10 * SEC), Some(10 * SEC));
    backoff.start(20 * SEC);
    assert_eq!(next(&mut backoff, &params, 20 * SEC), Some(20 * SEC));
    backoff.start(40 * SEC);
    assert_eq!(next(&mut backoff, &params, 40 * SEC), None);

    // A healthy period, its failure is the first retry.
    assert_eq!(next(&mut backoff, &params, 45 * SEC), Some(0));
    backoff.start(46 * SEC);
    assert_eq!(next(&mut backoff, &params, 46 * SEC), Some(5 * SEC));
    assert_eq!(next(&mut backoff, &params, 47 * SEC), Some(10 * SEC));
    assert_eq!(next(&mut backoff, &params, 48 * SEC), None);
}

#[test]
fn infinite_delay_is_limited() {
    let params = RestartParams::new(SEC, 7 * SEC);
    let mut backoff = RestartBackoff::new(0);
    assert_eq!(backoff.next(&params, 0, None), Some(7 * SEC));
    assert_eq!(backoff.next(&params, 0, Some(0)), Some(SEC));
}

#[test]
fn backoff_it_works() {
    let mut now = 0;
    let mut backoff = Backoff::new(now);

    // Immediately failed.
    assert_eq!(backoff.next(now), BACKOFF_STEP);
    now += BACKOFF_STEP;
    backoff.start(now);

    // And again.
    assert_eq!(backoff.next(now), 2 * BACKOFF_STEP);
    now += 2 * BACKOFF_STEP;
    backoff.start(now);

    // After some, not enough to reset the backoff, time.
    now += BACKOFF_STEP * 2 / 3;
    assert_eq!(backoff.next(now), 3 * BACKOFF_STEP);
    now += 3 * BACKOFF_STEP;
    backoff.start(now);

    // After some, enough to reset the backoff, time.
    now += BACKOFF_STEP;
    assert_eq!(backoff.next(now), 0); // resetted
    backoff.start(now);

    // After some, not enough to reset the backoff, time.
    now += BACKOFF_STEP * 2 / 3;
    assert_eq!(backoff.next(now), BACKOFF_STEP);
}

#[test]
fn backoff_is_limited() {
    let mut backoff = Backoff::new(0);
    let mut last = 0;
    for _ in 0..20 {
        last = backoff.next(0);
        assert!(last <= MAX_BACKOFF);
    }
    assert_eq!(last, MAX_BACKOFF);
}

#[test]
fn params_are_corrected() {
    let params = RestartParams::new(5, 3);
    assert_eq!(params.max_backoff, 5);
    assert_eq!(params.auto_reset, 5);
    assert_eq!(params.max_retries, u64::MAX);
    assert_eq!(f64::from_bits(params.factor), 2.0);

    assert_eq!(params.factor(Some((-1.0f64).to_bits())).factor, 0);
    assert_eq!(params.factor(Some(f64::NAN.to_bits())).factor, 0);
    assert_eq!(params.factor(Some(f64::INFINITY.to_bits())).factor, 0);
    assert_eq!(
        f64::from_bits(params.factor(Some(1.5f64.to_bits())).factor),
        1.5
    );
    assert_eq!(params.factor(None).factor, params.factor);
    assert_eq!(params.auto_reset(Some(7)).auto_reset, 7);
    assert_eq!(params.auto_reset(None).auto_reset, 5);
}

#[test]
fn policies_allow_restarting() {
    let params = RestartParams::new(1, 2);
    let failed = ActorStatus::new(ActorStatusKind::Failed, None);
    let terminated = ActorStatus::new(ActorStatusKind::Terminated, None);

    let always = RestartPolicy::always(params);
    assert!(always.restarting_allowed(&failed));
    assert!(always.restarting_allowed(&terminated));
    assert_eq!(always.restart_params(), Some(params));

    let on_failure = RestartPolicy::on_failure(params);
    assert!(on_failure.restarting_allowed(&failed));
    assert!(!on_failure.restarting_allowed(&terminated));

    let never = RestartPolicy::never();
    assert!(!never.restarting_allowed(&failed));
    assert!(!never.restarting_allowed(&terminated));
    assert_eq!(never.restart_params(), None);
    assert!(matches!(RestartPolicy::default().mode, RestartMode::Never));
}

#[test]
fn configs_make_policies() {
    assert!(RestartPolicyConfig(None).make_policy().is_none());

    let params = RestartParamsConfig {
        min_backoff: 3,
        max_backoff: 4,
        factor: None,
        auto_reset: None,
        max_retries: Some(9),
    };
    let policy = RestartPolicyConfig(Some(WhenConfig::OnFailure(params)))
        .make_policy()
        .unwrap();
    let params = policy.restart_params().unwrap();
    assert_eq!(params.min_backoff, 3);
    assert_eq!(params.max_backoff, 4);
    assert_eq!(params.max_retries, 9);
    assert!(matches!(policy.mode, RestartMode::OnFailure(_)));

    let policy = RestartPolicyConfig(Some(WhenConfig::Never)).make_policy();
    assert!(matches!(policy.unwrap().mode, RestartMode::Never));
}
