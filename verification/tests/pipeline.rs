use attuned::auth::{authorize, AuthConfig, AuthOutcome};
use attuned::limiter::{RateLimitConfig, RateLimitKey, RateLimitState};
use attuned::pipeline::{govern, retry_after_secs, strip_repeated, PipelineDecision};

fn limiter(max_requests: u32, strategy: RateLimitKey) -> RateLimitState {
    RateLimitState::new(RateLimitConfig {
        max_requests,
        window_ms: 60 * 1000,
        key_strategy: strategy,
    })
}

#[test]
fn test_auth_guard_disabled_admits_everything() {
    let config = AuthConfig::default();
    assert_eq!(authorize(&config, "/v1/state", None), AuthOutcome::Admitted);
    assert_eq!(
        authorize(&config, "/v1/state", Some("anything at all")),
        AuthOutcome::Admitted
    );
}

#[test]
fn test_auth_guard_checks_bearer_keys() {
    let config = AuthConfig::with_keys(vec!["k1".to_string()]);
    assert_eq!(
        authorize(&config, "/v1/state", Some("Bearer k1")),
        AuthOutcome::Admitted
    );
    assert_eq!(
        authorize(&config, "/v1/state", Some("Bearer wrong")),
        AuthOutcome::InvalidKey
    );
    assert_eq!(authorize(&config, "/health", None), AuthOutcome::Admitted);
}

#[test]
fn test_auth_guard_missing_and_malformed_headers() {
    let config = AuthConfig::with_keys(vec!["k1".to_string()]);
    assert_eq!(
        authorize(&config, "/v1/state", None),
        AuthOutcome::MissingHeader
    );
    assert_eq!(
        authorize(&config, "/v1/state", Some("Basic k1")),
        AuthOutcome::MalformedHeader
    );
}

#[test]
fn test_govern_fresh_key_counts_down_then_rejects() {
    let auth = AuthConfig::default();
    let mut state = limiter(3, RateLimitKey::ByIp);

    for expected_remaining in [2u32, 1, 0] {
        match govern(&auth, &mut state, "/v1/state", None, "10.0.0.1", 1000) {
            PipelineDecision::Admitted { remaining, limit } => {
                assert_eq!(remaining, expected_remaining);
                assert_eq!(limit, 3);
            }
            other => panic!("expected admission, got {:?}", other),
        }
    }

    match govern(&auth, &mut state, "/v1/state", None, "10.0.0.1", 1000) {
        PipelineDecision::RateLimited {
            retry_after_secs,
            limit,
        } => {
            assert!(retry_after_secs >= 1 && retry_after_secs <= 60);
            assert_eq!(limit, 3);
        }
        other => panic!("expected rate limiting, got {:?}", other),
    }

    match govern(&auth, &mut state, "/v1/state", None, "10.0.0.2", 1000) {
        PipelineDecision::Admitted { remaining, .. } => assert_eq!(remaining, 2),
        other => panic!("expected admission for distinct key, got {:?}", other),
    }
}

#[test]
fn test_govern_auth_failure_spends_no_rate_budget() {
    let auth = AuthConfig::with_keys(vec!["k1".to_string()]);
    let mut state = limiter(1, RateLimitKey::ByIp);

    match govern(&auth, &mut state, "/v1/state", Some("Bearer bad"), "10.0.0.1", 0) {
        PipelineDecision::AuthRejected { outcome } => {
            assert_eq!(outcome, AuthOutcome::InvalidKey)
        }
        other => panic!("expected auth rejection, got {:?}", other),
    }

    match govern(&auth, &mut state, "/v1/state", Some("Bearer k1"), "10.0.0.1", 0) {
        PipelineDecision::Admitted { remaining, limit } => {
            assert_eq!((remaining, limit), (0, 1));
        }
        other => panic!("expected admission, got {:?}", other),
    }
}

#[test]
fn test_govern_by_api_key_separates_credentials() {
    let auth = AuthConfig::default();
    let mut state = limiter(1, RateLimitKey::ByApiKey);

    assert!(matches!(
        govern(&auth, &mut state, "/v1/state", Some("Bearer a"), "10.0.0.1", 0),
        PipelineDecision::Admitted { .. }
    ));
    assert!(matches!(
        govern(&auth, &mut state, "/v1/state", Some("Bearer b"), "10.0.0.1", 0),
        PipelineDecision::Admitted { .. }
    ));
    assert!(matches!(
        govern(&auth, &mut state, "/v1/state", Some("Bearer a"), "10.0.0.1", 0),
        PipelineDecision::RateLimited { .. }
    ));
}

#[test]
fn test_retry_after_floors_at_one_second() {
    assert_eq!(retry_after_secs(0), 1);
    assert_eq!(retry_after_secs(999), 1);
    assert_eq!(retry_after_secs(1000), 1);
    assert_eq!(retry_after_secs(59_500), 59);
    assert_eq!(retry_after_secs(60_000), 60);
}

#[test]
fn test_strip_repeated_prefix() {
    assert_eq!(strip_repeated("Bearer abc", "Bearer "), "abc");
    assert_eq!(strip_repeated("Bearer Bearer abc", "Bearer "), "abc");
    assert_eq!(strip_repeated("abc", "Bearer "), "abc");
    assert_eq!(strip_repeated("Bearer ", "Bearer "), "");
}
