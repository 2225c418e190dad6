use request_gate::rate_limiter::{client_identifier, GateDecision, RateLimitStore, RateLimiterMiddleware};

fn store(max_requests: u32, window_secs: i64, block_duration_secs: i64) -> RateLimitStore {
    RateLimitStore::new(RateLimiterMiddleware::configured(
        max_requests,
        window_secs,
        block_duration_secs,
    ))
}

#[test]
fn threshold_is_exact_within_one_window() {
    let mut s = store(5, 900, 1800);
    for i in 1..=5u32 {
        assert_eq!(
            s.handle_request("10.0.0.1", 100 + i as i64),
            GateDecision::Allowed { count: i }
        );
    }
    assert_eq!(
        s.handle_request("10.0.0.1", 200),
        GateDecision::RateLimitExceeded { retry_after_secs: 1800 }
    );
}

#[test]
fn after_exceeding_the_next_request_is_blocked_then_a_fresh_window_opens() {
    let mut s = store(2, 60, 120);
    assert_eq!(s.handle_request("a", 10), GateDecision::Allowed { count: 1 });
    assert_eq!(s.handle_request("a", 11), GateDecision::Allowed { count: 2 });
    assert_eq!(
        s.handle_request("a", 12),
        GateDecision::RateLimitExceeded { retry_after_secs: 120 }
    );
    // Blocked until 12 + 120 = 132, whatever the timing of the retries.
    assert_eq!(s.handle_request("a", 13), GateDecision::Blocked { remaining_secs: 119 });
    assert_eq!(s.handle_request("a", 131), GateDecision::Blocked { remaining_secs: 1 });
    // At the expiry instant the block lapses and a fresh window opens.
    assert_eq!(s.handle_request("a", 132), GateDecision::Allowed { count: 1 });
    assert_eq!(s.handle_request("a", 133), GateDecision::Allowed { count: 2 });
}

#[test]
fn an_idle_spell_longer_than_the_window_resets_the_count() {
    let mut s = store(3, 60, 120);
    assert_eq!(s.handle_request("c", 0), GateDecision::Allowed { count: 1 });
    assert_eq!(s.handle_request("c", 1), GateDecision::Allowed { count: 2 });
    assert_eq!(s.handle_request("c", 2), GateDecision::Allowed { count: 3 });
    // 61 - 0 > 60: hard reset, count starts over.
    assert_eq!(s.handle_request("c", 61), GateDecision::Allowed { count: 1 });
    // Exactly the window length is not a reset.
    let mut s2 = store(3, 60, 120);
    assert_eq!(s2.handle_request("c", 0), GateDecision::Allowed { count: 1 });
    assert_eq!(s2.handle_request("c", 60), GateDecision::Allowed { count: 2 });
}

#[test]
fn distinct_identifiers_never_affect_each_other() {
    let mut s = store(3, 900, 1800);
    let mut counts_a = Vec::new();
    let mut counts_b = Vec::new();
    for i in 0..3i64 {
        match s.handle_request("1.1.1.1", i) {
            GateDecision::Allowed { count } => counts_a.push(count),
            other => panic!("expected an acceptance for a, got {:?}", other),
        }
        match s.handle_request("2.2.2.2", i) {
            GateDecision::Allowed { count } => counts_b.push(count),
            other => panic!("expected an acceptance for b, got {:?}", other),
        }
    }
    assert_eq!(counts_a, vec![1, 2, 3]);
    assert_eq!(counts_b, vec![1, 2, 3]);
    // Exceeding with one identifier leaves the other untouched.
    assert!(matches!(
        s.handle_request("1.1.1.1", 3),
        GateDecision::RateLimitExceeded { .. }
    ));
    assert!(matches!(s.handle_request("2.2.2.2", 3), GateDecision::RateLimitExceeded { .. }));
    assert!(matches!(s.handle_request("1.1.1.1", 4), GateDecision::Blocked { .. }));
}

#[test]
fn a_simultaneous_burst_causes_exactly_one_exceeded_transition() {
    let max = 5u32;
    let mut s = store(max, 900, 1800);
    let mut accepted = 0u32;
    let mut exceeded = 0u32;
    let mut blocked = 0u32;
    for _ in 0..(max + 5) {
        match s.handle_request("burst", 42) {
            GateDecision::Allowed { .. } => accepted += 1,
            GateDecision::RateLimitExceeded { .. } => exceeded += 1,
            GateDecision::Blocked { .. } => blocked += 1,
        }
    }
    assert_eq!(accepted, max);
    assert_eq!(exceeded, 1);
    assert_eq!(blocked, 4);
}

#[test]
fn end_to_end_scenario_two_per_minute_with_two_minute_block() {
    let mut s = store(2, 60, 120);
    assert_eq!(s.handle_request("A", 0), GateDecision::Allowed { count: 1 });
    assert_eq!(s.handle_request("A", 1), GateDecision::Allowed { count: 2 });
    // Third request within the window: 429 with Retry-After: 120.
    assert_eq!(
        s.handle_request("A", 2),
        GateDecision::RateLimitExceeded { retry_after_secs: 120 }
    );
    // Blocked until 2 + 120 = 122; at t=3 that leaves 119 seconds.
    assert_eq!(s.handle_request("A", 3), GateDecision::Blocked { remaining_secs: 119 });
    // After the block expires the window is fresh.
    assert_eq!(s.handle_request("A", 125), GateDecision::Allowed { count: 1 });
}

#[test]
fn unresolvable_clients_share_the_sentinel_bucket() {
    assert_eq!(client_identifier(Some("203.0.113.9")), "203.0.113.9");
    assert_eq!(client_identifier(None), "unknown");
    let mut s = store(2, 60, 120);
    assert_eq!(s.handle_request("unknown", 0), GateDecision::Allowed { count: 1 });
    assert_eq!(s.handle_request("unknown", 0), GateDecision::Allowed { count: 2 });
    assert!(matches!(
        s.handle_request("unknown", 0),
        GateDecision::RateLimitExceeded { .. }
    ));
}

#[test]
fn env_configuration_parses_or_falls_back_to_defaults() {
    let d = RateLimiterMiddleware::from_env_strings(None, None, None);
    assert_eq!(d, RateLimiterMiddleware::configured(5, 900, 1800));
    assert_eq!(d, RateLimiterMiddleware::default());

    let c = RateLimiterMiddleware::from_env_strings(Some("10"), Some("60"), Some("+120"));
    assert_eq!(c, RateLimiterMiddleware::configured(10, 60, 120));

    // Unparsable values fall back value by value.
    let f = RateLimiterMiddleware::from_env_strings(Some("ten"), Some(""), Some("12.5"));
    assert_eq!(f, RateLimiterMiddleware::configured(5, 900, 1800));

    // Out-of-range values are unparsable too.
    let o = RateLimiterMiddleware::from_env_strings(
        Some("4294967296"),
        Some("9223372036854775808"),
        Some("-9223372036854775809"),
    );
    assert_eq!(o, RateLimiterMiddleware::configured(5, 900, 1800));

    // Boundary values parse exactly.
    let b = RateLimiterMiddleware::from_env_strings(
        Some("4294967295"),
        Some("9223372036854775807"),
        Some("-9223372036854775808"),
    );
    assert_eq!(
        b,
        RateLimiterMiddleware::configured(4294967295, 9223372036854775807, -9223372036854775808)
    );
}
