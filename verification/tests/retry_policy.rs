use anthropic_sdk::{AttemptOutcome, RetryDecision};

#[test]
fn backoff_without_jitter_is_exact() {
    assert_eq!(anthropic_sdk::backoff_delay_ms(0, 0), 500);
    assert_eq!(anthropic_sdk::backoff_delay_ms(1, 0), 1000);
    assert_eq!(anthropic_sdk::backoff_delay_ms(2, 0), 2000);
    assert_eq!(anthropic_sdk::backoff_delay_ms(3, 0), 4000);
    assert_eq!(anthropic_sdk::backoff_delay_ms(4, 0), 8000);
    assert_eq!(anthropic_sdk::backoff_delay_ms(9, 0), 8000);
}

#[test]
fn jitter_takes_off_at_most_a_quarter() {
    // the largest draw takes off just under a quarter
    assert_eq!(anthropic_sdk::backoff_delay_ms(0, 999_999), 375);
    // half a draw takes off an eighth
    assert_eq!(anthropic_sdk::backoff_delay_ms(0, 500_000), 437);
    for attempt in 0..10 {
        let full = anthropic_sdk::backoff_delay_ms(attempt, 0);
        let least = anthropic_sdk::backoff_delay_ms(attempt, 999_999);
        assert!(least <= full && full <= 8000);
        assert!(4 * least >= 3 * full - 4);
    }
}

#[test]
fn delay_is_nondecreasing_in_the_attempt() {
    for u in [0, 123_456, 999_999] {
        let mut last = 0;
        for attempt in 0..12 {
            let d = anthropic_sdk::backoff_delay_ms(attempt, u);
            assert!(d >= last);
            last = d;
        }
    }
}

#[test]
fn retry_after_ms_header_overrides_backoff() {
    assert_eq!(anthropic_sdk::retry_delay_ms(3, Some(250), 0), 250);
}

#[test]
fn retry_after_over_sixty_seconds_is_ignored() {
    // 120 s exceeds the cap, so the computed backoff is used instead
    assert_eq!(anthropic_sdk::retry_delay_ms(1, Some(120_000), 0), 1000);
    // exactly 60 s is still honored
    assert_eq!(anthropic_sdk::retry_delay_ms(1, Some(60_000), 0), 60_000);
}

#[test]
fn parse_u64_ascii_accepts_digits_only() {
    assert_eq!(anthropic_sdk::parse_u64_ascii(&b"0".to_vec()), Some(0));
    assert_eq!(anthropic_sdk::parse_u64_ascii(&b"250".to_vec()), Some(250));
    assert_eq!(
        anthropic_sdk::parse_u64_ascii(&b"18446744073709551615".to_vec()),
        Some(u64::MAX)
    );
    assert_eq!(anthropic_sdk::parse_u64_ascii(&b"18446744073709551616".to_vec()), None);
    assert_eq!(anthropic_sdk::parse_u64_ascii(&b"".to_vec()), None);
    assert_eq!(anthropic_sdk::parse_u64_ascii(&b"12a".to_vec()), None);
    assert_eq!(anthropic_sdk::parse_u64_ascii(&b"+5".to_vec()), None);
    assert_eq!(anthropic_sdk::parse_u64_ascii(&b" 5".to_vec()), None);
}

#[test]
fn retry_hint_prefers_milliseconds() {
    assert_eq!(
        anthropic_sdk::parse_retry_after(&Some(b"250".to_vec()), &Some(b"10".to_vec())),
        Some(250)
    );
}

#[test]
fn retry_hint_falls_back_to_seconds() {
    assert_eq!(anthropic_sdk::parse_retry_after(&None, &Some(b"2".to_vec())), Some(2000));
    assert_eq!(
        anthropic_sdk::parse_retry_after(&Some(b"nope".to_vec()), &Some(b"2".to_vec())),
        Some(2000)
    );
    assert_eq!(anthropic_sdk::parse_retry_after(&None, &None), None);
    // a seconds value too large to convert saturates
    assert_eq!(
        anthropic_sdk::parse_retry_after(&None, &Some(b"18446744073709551615".to_vec())),
        Some(u64::MAX)
    );
}

#[test]
fn retryable_statuses_are_exactly_the_set() {
    for status in [408u16, 409, 429, 500, 502, 503, 504, 529] {
        assert!(anthropic_sdk::should_retry(status), "status {}", status);
    }
    for status in [200u16, 400, 401, 403, 404, 413, 422, 501, 505] {
        assert!(!anthropic_sdk::should_retry(status), "status {}", status);
    }
}

#[test]
fn status_400_never_triggers_a_retry() {
    let outcome = AttemptOutcome::Response { status: 400, retry_after_ms: None };
    for attempt in 0..3 {
        assert_eq!(anthropic_sdk::retry_step(5, attempt, &outcome, 0), RetryDecision::Accept);
    }
}

#[test]
fn final_429_is_surfaced_with_its_hint() {
    // budget exhausted: the response is accepted as-is ...
    let outcome = AttemptOutcome::Response { status: 429, retry_after_ms: Some(250) };
    assert_eq!(anthropic_sdk::retry_step(2, 2, &outcome, 0), RetryDecision::Accept);
    // ... and the classifier then carries the retry hint
    let err = anthropic_sdk::classify_response(429, b"too fast".to_vec(), None, Some(250));
    assert!(err.is_retryable());
    assert_eq!(err.retry_after_ms(), Some(250));
}

#[test]
fn retryable_response_with_budget_sleeps_the_hint() {
    let outcome = AttemptOutcome::Response { status: 429, retry_after_ms: Some(250) };
    assert_eq!(
        anthropic_sdk::retry_step(2, 0, &outcome, 0),
        RetryDecision::RetryAfter { delay_ms: 250 }
    );
}

#[test]
fn transport_failure_retries_then_fails() {
    let outcome = AttemptOutcome::Transport { timeout: true };
    assert_eq!(
        anthropic_sdk::retry_step(1, 0, &outcome, 0),
        RetryDecision::RetryAfter { delay_ms: 500 }
    );
    assert_eq!(anthropic_sdk::retry_step(1, 1, &outcome, 0), RetryDecision::Fail);
}

#[test]
fn two_failures_then_success_within_budget() {
    let outcomes = vec![
        AttemptOutcome::Response { status: 503, retry_after_ms: None },
        AttemptOutcome::Response { status: 503, retry_after_ms: None },
        AttemptOutcome::Response { status: 200, retry_after_ms: None },
    ];
    // max_retries = 2 allows attempts 0, 1, 2: the success is reached
    assert_eq!(anthropic_sdk::run_retry(2, &outcomes, 0), Some((2, RetryDecision::Accept)));
}

#[test]
fn two_failures_exhaust_a_budget_of_one_retry() {
    let outcomes = vec![
        AttemptOutcome::Response { status: 503, retry_after_ms: None },
        AttemptOutcome::Response { status: 503, retry_after_ms: None },
        AttemptOutcome::Response { status: 200, retry_after_ms: None },
    ];
    // max_retries = 1: the second 503 is surfaced as the final outcome
    assert_eq!(anthropic_sdk::run_retry(1, &outcomes, 0), Some((1, RetryDecision::Accept)));
}
