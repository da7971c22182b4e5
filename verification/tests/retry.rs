use std::collections::HashSet;
use std::time::Duration;

use christina::retry::{
    calls_made, spacing_from_hash, AttemptOutcome,
    calculate_retry_delay, jitter_from_hash, next_retry_step, rand_jitter_with_seed,
    random_with_seed, timeout_for_attempt, RetryPolicy, RetryStep,
};

#[test]
fn delay_calculation_exponential() {
    let policy = RetryPolicy::new(3, 1_000).without_jitter();

    assert_eq!(policy.calculate_delay(0), Duration::from_millis(1_000));
    assert_eq!(policy.calculate_delay(1), Duration::from_millis(2_000));
    assert_eq!(policy.calculate_delay(2), Duration::from_millis(4_000));
}

#[test]
fn full_jitter_range() {
    let policy = RetryPolicy::default();
    let mut seen_values = HashSet::new();

    for i in 0..100 {
        let delay = policy.calculate_delay_with_seed(0, i);
        seen_values.insert(delay.as_millis() as u64);
        assert!(delay <= Duration::from_millis(1_000), "Delay {:?} exceeds max 1000ms", delay);
    }

    assert!(
        seen_values.len() >= 50,
        "Expected good distribution, got {} unique values out of 100",
        seen_values.len()
    );
}

#[test]
fn random_with_seed_distribution() {
    let max = 1_000u64;
    let mut values = HashSet::new();

    for seed in 0..100 {
        let value = random_with_seed(max, seed);
        assert!(value <= max, "Value {} exceeds max {}", value, max);
        values.insert(value);
    }

    assert!(
        values.len() >= 50,
        "Expected good distribution, got {} unique values out of 100",
        values.len()
    );
}

#[test]
fn retry_delay_increases_with_attempt() {
    let seed = 12_345u64;
    let base_delay = 1_000u64;

    let delay0 = calculate_retry_delay(0, base_delay, seed);
    let delay1 = calculate_retry_delay(1, base_delay, seed);
    let delay2 = calculate_retry_delay(2, base_delay, seed);

    assert!(delay0 <= Duration::from_millis(base_delay));
    assert!(delay1 <= Duration::from_millis(base_delay * 2));
    assert!(delay2 <= Duration::from_millis(base_delay * 4));
}

#[test]
fn backoff_saturates() {
    let policy = RetryPolicy::new(3, u64::MAX / 2).without_jitter();
    assert_eq!(policy.calculate_delay_ms(3), u64::MAX);
    assert_eq!(policy.max_delay_ms(70), u64::MAX);
    let small = RetryPolicy::new(3, 0).without_jitter();
    assert_eq!(small.calculate_delay_ms(100), 0);
}

#[test]
fn jitter_from_hash_cases() {
    assert_eq!(jitter_from_hash(0, 77), 0);
    assert_eq!(jitter_from_hash(u64::MAX, 77), 77);
    assert_eq!(jitter_from_hash(9, 77), 7);
    assert_eq!(rand_jitter_with_seed(0, 5), 0);
}

#[test]
fn timeouts_grow_then_cap() {
    assert_eq!(timeout_for_attempt(0), Duration::from_secs(30));
    assert_eq!(timeout_for_attempt(1), Duration::from_secs(60));
    assert_eq!(timeout_for_attempt(7), Duration::from_secs(120));
}

#[test]
fn retry_steps() {
    let policy = RetryPolicy::new(2, 100).without_jitter();
    assert!(matches!(next_retry_step(&policy, 0, false, None), RetryStep::GiveUp));
    assert!(matches!(next_retry_step(&policy, 2, true, None), RetryStep::GiveUp));
    assert!(matches!(next_retry_step(&policy, 1, true, None), RetryStep::WaitMs(200)));
    assert!(matches!(next_retry_step(&policy, 1, true, Some(50)), RetryStep::WaitMs(50)));
    assert!(matches!(next_retry_step(&policy, 0, true, Some(500)), RetryStep::WaitMs(100)));
}

#[test]
fn random_with_seed_stays_in_range_at_the_extremes() {
    assert_eq!(random_with_seed(0, 9), 0);
    assert_eq!(rand_jitter_with_seed(0, 9), 0);
    for seed in 0..20 {
        assert!(random_with_seed(u64::MAX, seed) < u64::MAX);
        assert!(random_with_seed(5, seed) <= 5);
        assert!(rand_jitter_with_seed(5, seed) <= 5);
    }
}

#[test]
fn retry_loop_call_counts() {
    let transient = AttemptOutcome::Failure { transient: true, retry_after_ms: None };
    let permanent = AttemptOutcome::Failure { transient: false, retry_after_ms: None };
    let policy = RetryPolicy::new(2, 100);
    assert_eq!(calls_made(&policy, &vec![AttemptOutcome::Success; 3]), 1);
    assert_eq!(calls_made(&policy, &vec![permanent, transient, transient]), 1);
    assert_eq!(calls_made(&policy, &vec![transient, AttemptOutcome::Success, transient]), 2);
    assert_eq!(calls_made(&policy, &vec![transient; 3]), 3);
    assert_eq!(calls_made(&policy, &vec![transient; 10]), 3);
}

#[test]
fn spacing_from_hash_values() {
    assert_eq!(spacing_from_hash(0, 12345), 0);
    assert_eq!(spacing_from_hash(9, 12345), 5);
    assert_eq!(spacing_from_hash(u64::MAX, u64::MAX), 0);
    assert_eq!(spacing_from_hash(u64::MAX, 7), 7);
}
