use attuned::auth::AuthConfig;
use attuned::limiter::{RateLimitConfig, RateLimitKey, RateLimitState};
use attuned::pipeline::security_headers;

#[test]
fn test_auth_config_default() {
    let config = AuthConfig::default();
    assert!(!config.is_enabled());
    assert!(config.public_paths.iter().any(|p| p == "/health"));
    assert!(config.public_paths.iter().any(|p| p == "/ready"));
}

#[test]
fn test_auth_config_with_keys() {
    let config = AuthConfig::with_keys(vec!["key1".to_string(), "key2".to_string()]);
    assert!(config.is_enabled());
    assert!(config.validate_key("key1"));
    assert!(config.validate_key("key2"));
    assert!(!config.validate_key("key3"));
}

#[test]
fn test_auth_config_public_paths() {
    let config = AuthConfig::default().add_public_path("/metrics".to_string());
    assert!(!config.requires_auth("/health"));
    assert!(!config.requires_auth("/ready"));
    assert!(!config.requires_auth("/metrics"));
    assert!(config.requires_auth("/v1/state"));
}

#[test]
fn test_rate_limit_config_default() {
    let config = RateLimitConfig::default();
    assert_eq!(config.max_requests, 100);
    assert_eq!(config.window_ms, 60 * 1000);
    assert_eq!(config.key_strategy, RateLimitKey::ByIp);
}

#[test]
fn test_rate_limit_state() {
    let mut state = RateLimitState::new(RateLimitConfig {
        max_requests: 3,
        window_ms: 60 * 1000,
        key_strategy: RateLimitKey::ByIp,
    });

    assert!(state.check_and_increment("test".to_string(), 0).is_ok());
    assert!(state.check_and_increment("test".to_string(), 0).is_ok());
    assert!(state.check_and_increment("test".to_string(), 0).is_ok());

    assert!(state.check_and_increment("test".to_string(), 0).is_err());

    assert!(state.check_and_increment("other".to_string(), 0).is_ok());
}

#[test]
fn test_rate_limit_remaining_counts_down() {
    let mut state = RateLimitState::new(RateLimitConfig {
        max_requests: 3,
        window_ms: 60 * 1000,
        key_strategy: RateLimitKey::ByIp,
    });
    assert_eq!(state.check_and_increment("k".to_string(), 1000).unwrap(), (2, 3));
    assert_eq!(state.check_and_increment("k".to_string(), 1000).unwrap(), (1, 3));
    assert_eq!(state.check_and_increment("k".to_string(), 1000).unwrap(), (0, 3));
    let (count, retry_ms) = state.check_and_increment("k".to_string(), 1000).unwrap_err();
    assert_eq!(count, 4);
    assert!(retry_ms > 0 && retry_ms <= 60 * 1000);
}

#[test]
fn test_rate_limit_window_rollover_resets() {
    let mut state = RateLimitState::new(RateLimitConfig {
        max_requests: 1,
        window_ms: 60 * 1000,
        key_strategy: RateLimitKey::ByIp,
    });
    assert!(state.check_and_increment("k".to_string(), 0).is_ok());
    assert!(state.check_and_increment("k".to_string(), 1).is_err());
    assert!(state.check_and_increment("k".to_string(), 60 * 1000).is_ok());
}

#[test]
fn test_rate_limit_zero_max_rejects_everything() {
    let mut state = RateLimitState::new(RateLimitConfig {
        max_requests: 0,
        window_ms: 60 * 1000,
        key_strategy: RateLimitKey::ByIp,
    });
    assert!(state.check_and_increment("k".to_string(), 0).is_err());
    assert!(state.check_and_increment("other".to_string(), 5).is_err());
}

#[test]
fn test_rate_limit_max_count_disables_limiting() {
    let mut state = RateLimitState::new(RateLimitConfig {
        max_requests: u32::MAX,
        window_ms: 60 * 1000,
        key_strategy: RateLimitKey::ByIp,
    });
    assert_eq!(
        state.check_and_increment("k".to_string(), 0).unwrap(),
        (u32::MAX - 1, u32::MAX)
    );
    assert!(state.check_and_increment("k".to_string(), 0).is_ok());
}

#[test]
fn test_rate_limit_cleanup_drops_expired() {
    let mut state = RateLimitState::new(RateLimitConfig {
        max_requests: 1,
        window_ms: 60 * 1000,
        key_strategy: RateLimitKey::ByIp,
    });
    assert!(state.check_and_increment("stale".to_string(), 0).is_ok());
    assert!(state.check_and_increment("stale".to_string(), 1).is_err());
    state.cleanup(60 * 1000);
    assert!(state.check_and_increment("stale".to_string(), 60 * 1000 + 1).is_ok());
}

#[test]
fn test_security_headers_present() {
    let headers = security_headers();
    let get = |name: &str| -> Option<String> {
        headers
            .iter()
            .find(|(n, _)| n.eq_ignore_ascii_case(name))
            .map(|(_, v)| v.clone())
    };
    assert_eq!(get("x-content-type-options").unwrap(), "nosniff");
    assert_eq!(get("x-frame-options").unwrap(), "DENY");
    assert_eq!(get("x-xss-protection").unwrap(), "1; mode=block");
    assert!(get("content-security-policy").is_some());
    assert_eq!(get("cache-control").unwrap(), "no-store, max-age=0");
}
