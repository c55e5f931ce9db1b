use proxy::outcome::Outcome;
use proxy::retry::{Backoff, ExponentialBackoff, LinearBackoff, WithBackoff};
use proxy::span::Span;

#[test]
fn linear_backoff_always_waits_the_same() {
    let mut backoff = LinearBackoff::new(Span::from_millis(250));
    for _ in 0..5 {
        let (wait, next) = backoff.next(Span::from_secs(9));
        assert_eq!(wait, Span::from_millis(250));
        backoff = next;
    }
}

#[test]
fn exponential_backoff_doubles_up_to_the_cap() {
    let mut backoff = ExponentialBackoff::new(Span::from_secs(1), Span::from_secs(8));
    let mut waits = Vec::new();
    for iteration in 0..5u32 {
        assert_eq!(backoff.iterations, iteration);
        let (wait, next) = backoff.next(Span::zero());
        waits.push(wait);
        backoff = next;
    }
    assert_eq!(
        waits,
        vec![
            Span::from_secs(1),
            Span::from_secs(2),
            Span::from_secs(4),
            Span::from_secs(8),
            Span::from_secs(8),
        ]
    );
    assert_eq!(backoff.iterations, 5);
}

#[test]
fn base_is_capped_when_doubling_overshoots() {
    let mut backoff = ExponentialBackoff::new(Span::from_secs(3), Span::from_secs(10));
    backoff.iterations = 2;
    assert_eq!(backoff.base(), Span::from_secs(10));
    backoff.iterations = 1;
    assert_eq!(backoff.base(), Span::from_secs(6));
}

#[test]
fn base_survives_a_huge_iteration_count() {
    let backoff = ExponentialBackoff {
        min: Span::from_nanos(1).unwrap(),
        max: Span::from_secs(100),
        iterations: 40,
    };
    assert_eq!(backoff.base(), Span::from_secs(100));
    let backoff = ExponentialBackoff {
        min: Span::from_nanos(1).unwrap(),
        max: Span::from_secs(100),
        iterations: 32,
    };
    assert_eq!(backoff.base().as_nanos(), 1u128 << 32);
    let backoff = ExponentialBackoff {
        min: Span::from_secs(1),
        max: Span::from_secs(60),
        iterations: u32::MAX,
    };
    assert_eq!(backoff.base(), Span::from_secs(60));
}

#[test]
fn base_of_a_zero_minimum_is_zero() {
    let mut backoff = ExponentialBackoff::new(Span::zero(), Span::from_secs(60));
    backoff.iterations = u32::MAX;
    assert_eq!(backoff.base(), Span::zero());
    assert_eq!(backoff.delay(Span::from_secs(1)), Span::from_secs(1));
}

#[test]
fn base_with_minimum_above_maximum_is_the_maximum() {
    let backoff = ExponentialBackoff::new(Span::from_secs(9), Span::from_secs(2));
    assert_eq!(backoff.base(), Span::from_secs(2));
    assert_eq!(backoff.delay(Span::from_secs(5)), Span::from_secs(2));
}

#[test]
fn jitter_is_added_to_the_base() {
    let backoff = ExponentialBackoff::new(Span::from_secs(1), Span::from_secs(60));
    assert_eq!(backoff.delay(Span::from_millis(1500)), Span::from_millis(2500));
    assert_eq!(backoff.delay(Span::zero()), Span::from_secs(1));
}

#[test]
fn jitter_is_clamped_to_the_maximum() {
    let mut backoff = ExponentialBackoff::new(Span::from_secs(1), Span::from_secs(8));
    backoff.iterations = 2;
    assert_eq!(backoff.delay(Span::from_secs(3)), Span::from_secs(7));
    assert_eq!(backoff.delay(Span::from_secs(4)), Span::from_secs(8));
    assert_eq!(backoff.delay(Span::from_secs(100)), Span::from_secs(8));
    let mut capped = ExponentialBackoff::new(Span::from_secs(1), Span::from_secs(8));
    capped.iterations = 3;
    assert_eq!(capped.delay(Span::from_secs(2)), Span::from_secs(8));
}

#[test]
fn delay_stays_between_minimum_and_maximum() {
    let min = Span::from_millis(300);
    let max = Span::from_secs(7);
    for iterations in 0..12u32 {
        for jitter_ms in [0u64, 1, 299, 300, 5000, 100_000] {
            let backoff = ExponentialBackoff { min, max, iterations };
            let wait = backoff.delay(Span::from_millis(jitter_ms));
            assert!(min.le(wait));
            assert!(wait.le(max));
        }
    }
}

#[test]
fn next_counts_one_iteration() {
    let mut backoff = ExponentialBackoff::new(Span::from_secs(1), Span::from_secs(60));
    backoff.iterations = 41;
    let (wait, next) = backoff.next(Span::zero());
    assert_eq!(wait, Span::from_secs(60));
    assert_eq!(next.iterations, 42);
    assert_eq!(next.min, Span::from_secs(1));
    assert_eq!(next.max, Span::from_secs(60));
}

#[test]
fn default_backoff_runs_from_one_second_to_one_minute() {
    let backoff = ExponentialBackoff::default();
    assert_eq!(backoff.min, Span::from_secs(1));
    assert_eq!(backoff.max, Span::from_secs(60));
    assert_eq!(backoff.iterations, 0);
}

#[test]
fn success_stops_whatever_is_left() {
    for attempts in [0u32, 1, 3, u32::MAX] {
        let policy = WithBackoff::new(attempts, LinearBackoff::new(Span::from_millis(1)));
        for code in [200u16, 201, 204, 299] {
            assert!(policy.retry(Outcome::Status(code), Span::zero()).is_none());
        }
    }
}

#[test]
fn statuses_outside_the_success_range_are_failures() {
    assert!(!Outcome::Status(199).is_success());
    assert!(Outcome::Status(200).is_success());
    assert!(Outcome::Status(299).is_success());
    assert!(!Outcome::Status(300).is_success());
    assert!(!Outcome::Status(401).is_success());
    assert!(!Outcome::Status(429).is_success());
    assert!(!Outcome::Status(500).is_success());
    assert!(!Outcome::TransportError.is_success());
}

#[test]
fn three_attempts_allow_three_retries() {
    let mut policy = WithBackoff::new(3, LinearBackoff::new(Span::from_millis(10)));
    let failures = [Outcome::Status(500), Outcome::TransportError, Outcome::Status(429)];
    let mut attempts_made = 1;
    for (i, failure) in failures.iter().enumerate() {
        assert_eq!(policy.remaining(), 3 - i as u32);
        let (wait, next) = policy.retry(*failure, Span::zero()).expect("a retry is left");
        assert_eq!(wait, Span::from_millis(10));
        policy = next;
        attempts_made += 1;
    }
    assert_eq!(policy.remaining(), 0);
    assert!(policy.retry(Outcome::Status(500), Span::zero()).is_none());
    assert!(policy.retry(Outcome::TransportError, Span::zero()).is_none());
    assert_eq!(attempts_made, 4);
}

#[test]
fn no_attempts_means_no_retry() {
    let policy = WithBackoff::new(0, LinearBackoff::new(Span::from_millis(10)));
    assert!(policy.retry(Outcome::Status(503), Span::zero()).is_none());
}

#[test]
fn retry_advances_the_backoff() {
    let backoff = ExponentialBackoff::new(Span::from_secs(1), Span::from_secs(8));
    let policy = WithBackoff::new(3, backoff);
    let (wait, policy) = policy.retry(Outcome::Status(429), Span::zero()).unwrap();
    assert_eq!(wait, Span::from_secs(1));
    assert_eq!(policy.strategy().iterations, 1);
    let (wait, policy) = policy.retry(Outcome::Status(401), Span::from_millis(500)).unwrap();
    assert_eq!(wait, Span::from_millis(2500));
    assert_eq!(policy.strategy().iterations, 2);
    assert_eq!(policy.remaining(), 1);
}

#[test]
fn base_of_linear_backoff_is_its_timeout() {
    let backoff = LinearBackoff::new(Span::from_millis(250));
    assert_eq!(backoff.base(), Span::from_millis(250));
    assert!(backoff.has_room());
}

#[test]
fn exponential_backoff_has_room_until_the_counter_is_full() {
    let mut backoff = ExponentialBackoff::new(Span::from_secs(1), Span::from_secs(2));
    assert!(backoff.has_room());
    backoff.iterations = u32::MAX - 1;
    assert!(backoff.has_room());
    let (_, last) = backoff.next(Span::zero());
    assert_eq!(last.iterations, u32::MAX);
    assert!(!last.has_room());
}

#[test]
fn should_retry_needs_a_failure_and_a_budget() {
    let policy = WithBackoff::new(2, LinearBackoff::new(Span::zero()));
    assert!(policy.should_retry(Outcome::Status(500)));
    assert!(policy.should_retry(Outcome::Status(401)));
    assert!(policy.should_retry(Outcome::TransportError));
    assert!(!policy.should_retry(Outcome::Status(200)));
    let spent = WithBackoff::new(0, LinearBackoff::new(Span::zero()));
    assert!(!spent.should_retry(Outcome::Status(500)));
    assert!(!spent.should_retry(Outcome::TransportError));
    assert!(!spent.should_retry(Outcome::Status(204)));
}

#[test]
fn clone_of_a_policy_keeps_budget_and_strategy() {
    let backoff = ExponentialBackoff {
        min: Span::from_secs(1),
        max: Span::from_secs(9),
        iterations: 3,
    };
    let policy = WithBackoff::new(2, backoff);
    let copy = policy.clone();
    assert_eq!(copy.remaining(), 2);
    assert_eq!(copy.strategy().iterations, 3);
    assert_eq!(copy.strategy().min, Span::from_secs(1));
    assert_eq!(copy.strategy().max, Span::from_secs(9));
}

#[test]
fn success_range_agrees_with_the_status_type() {
    for code in 100u16..1000 {
        let status = http::StatusCode::from_u16(code).unwrap();
        assert_eq!(Outcome::Status(code).is_success(), status.is_success());
    }
}

#[test]
fn default_budget_is_three_retries() {
    assert_eq!(proxy::retry::DEFAULT_ATTEMPTS, 3);
    let mut policy =
        WithBackoff::new(proxy::retry::DEFAULT_ATTEMPTS, ExponentialBackoff::default());
    let mut waits = Vec::new();
    while let Some((wait, next)) = policy.retry(Outcome::Status(503), Span::zero()) {
        waits.push(wait);
        policy = next;
    }
    assert_eq!(waits, vec![Span::from_secs(1), Span::from_secs(2), Span::from_secs(4)]);
}
