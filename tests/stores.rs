use comacode::auth::AuthToken;
use comacode::ratelimit::RateLimiterStore;
use comacode::token_store::{TokenStore, DEFAULT_TOKEN_TTL_MS};
use comacode::CoreError;

const NOW: u64 = 1_700_000_000_000;

fn test_ip_v4() -> u128 {
    0xffff_c0a8_0101
}

fn test_ip_v6() -> u128 {
    1
}

#[test]
fn test_token_store_new() {
    let store = TokenStore::new();
    assert_eq!(store.token_count(), 0);
}

#[test]
fn test_add_token() {
    let mut store = TokenStore::new();
    store.add_token(AuthToken::generate(), NOW);
    assert_eq!(store.token_count(), 1);
}

#[test]
fn test_validate_valid_token() {
    let mut store = TokenStore::new();
    let token = AuthToken::generate();
    store.add_token(token, NOW);
    assert!(store.validate(&token, NOW));
}

#[test]
fn test_validate_invalid_token() {
    let mut store = TokenStore::new();
    let token1 = AuthToken::generate();
    let token2 = AuthToken::generate();
    store.add_token(token1, NOW);
    assert!(!store.validate(&token2, NOW));
}

#[test]
fn test_remove_token() {
    let mut store = TokenStore::new();
    let token = AuthToken::generate();
    store.add_token(token, NOW);
    assert_eq!(store.token_count(), 1);
    store.remove_token(&token);
    assert_eq!(store.token_count(), 0);
    assert!(!store.validate(&token, NOW));
}

#[test]
fn test_generate_token() {
    let mut store = TokenStore::new();
    let token = store.generate_token(NOW);
    assert!(store.validate(&token, NOW));
    assert_eq!(store.token_count(), 1);
}

#[test]
fn test_clear_tokens() {
    let mut store = TokenStore::new();
    store.generate_token(NOW);
    store.generate_token(NOW);
    assert_eq!(store.token_count(), 2);
    store.clear();
    assert_eq!(store.token_count(), 0);
}

#[test]
fn test_token_not_expired() {
    let mut store = TokenStore::new();
    let token = store.generate_token(NOW);
    assert!(store.validate(&token, NOW));
}

#[test]
fn test_cleanup_expired_removes_old_tokens() {
    let mut store = TokenStore::new();
    let token = AuthToken::generate();
    store.add_token(token, NOW);
    let cleaned = store.cleanup_expired(NOW);
    assert_eq!(cleaned, 0);
    assert!(store.validate(&token, NOW));
}

#[test]
fn token_expires_after_ttl() {
    let mut store = TokenStore::new();
    let token = store.generate_token(NOW);
    assert!(store.validate(&token, NOW + DEFAULT_TOKEN_TTL_MS - 1));
    assert!(!store.validate(&token, NOW + DEFAULT_TOKEN_TTL_MS));
    assert_eq!(store.token_count(), 0);
}

#[test]
fn cleanup_removes_exactly_expired_tokens() {
    let mut store = TokenStore::with_ttl(1000);
    let old = AuthToken::from_bytes([1; 32]);
    let fresh = AuthToken::from_bytes([2; 32]);
    let future = AuthToken::from_bytes([3; 32]);
    store.add_token(old, 0);
    store.add_token(fresh, 1500);
    store.add_token(future, 5000);
    assert_eq!(store.cleanup_expired(2000), 2);
    assert_eq!(store.token_count(), 1);
    assert!(store.validate(&fresh, 2000));
}

#[test]
fn re_adding_refreshes_time() {
    let mut store = TokenStore::with_ttl(100);
    let t = AuthToken::from_bytes([5; 32]);
    store.add_token(t, 0);
    store.add_token(t, 500);
    assert_eq!(store.token_count(), 1);
    assert!(store.validate(&t, 550));
}

#[test]
fn test_rate_limiter_new() {
    let store = RateLimiterStore::new();
    assert_eq!(store.banned_count(), 0);
    assert!(!store.is_banned(test_ip_v4()));
}

#[test]
fn test_check_rate_limit_under_limit() {
    let store = RateLimiterStore::new();
    let ip = test_ip_v4();
    for _ in 0..5 {
        assert!(store.check(ip).is_ok());
    }
}

#[test]
fn test_check_rate_limit_exceeded() {
    let store = RateLimiterStore::new();
    let ip = test_ip_v4();
    for _ in 0..5 {
        let _ = store.check(ip);
    }
    let result = store.check(ip);
    assert!(matches!(result, Err(CoreError::RateLimitExceeded)));
}

#[test]
fn test_ban_ip() {
    let mut store = RateLimiterStore::new();
    let ip = test_ip_v4();
    assert!(!store.is_banned(ip));
    store.ban_ip(ip);
    assert!(store.is_banned(ip));
    let result = store.check(ip);
    assert!(matches!(result, Err(CoreError::IpBanned { .. })));
}

#[test]
fn test_auth_failure_tracking() {
    let mut store = RateLimiterStore::new();
    let ip = test_ip_v4();
    assert_eq!(store.auth_failure_count(ip), 0);
    assert!(store.record_auth_failure(ip).is_ok());
    assert_eq!(store.auth_failure_count(ip), 1);
    assert!(store.record_auth_failure(ip).is_ok());
    assert_eq!(store.auth_failure_count(ip), 2);
    let result = store.record_auth_failure(ip);
    assert!(matches!(result, Err(CoreError::IpBanned { .. })));
    assert!(store.is_banned(ip));
}

#[test]
fn test_reset_auth_failures() {
    let mut store = RateLimiterStore::new();
    let ip = test_ip_v4();
    store.record_auth_failure(ip).unwrap();
    assert_eq!(store.auth_failure_count(ip), 1);
    store.reset_auth_failures(ip);
    assert_eq!(store.auth_failure_count(ip), 0);
}

#[test]
fn test_multiple_ips_tracked_separately() {
    let mut store = RateLimiterStore::new();
    let ip1 = test_ip_v4();
    let ip2 = test_ip_v6();
    store.record_auth_failure(ip1).unwrap();
    assert_eq!(store.auth_failure_count(ip1), 1);
    assert_eq!(store.auth_failure_count(ip2), 0);
    store.record_auth_failure(ip2).unwrap();
    assert_eq!(store.auth_failure_count(ip1), 1);
    assert_eq!(store.auth_failure_count(ip2), 1);
}

#[test]
fn reset_then_single_failure_does_not_ban() {
    let mut store = RateLimiterStore::new();
    let ip = test_ip_v4();
    store.record_auth_failure(ip).unwrap();
    store.record_auth_failure(ip).unwrap();
    store.reset_auth_failures(ip);
    assert!(store.record_auth_failure(ip).is_ok());
    assert!(!store.is_banned(ip));
    assert!(store.check(ip).is_ok());
}

#[test]
fn banned_peer_is_refused_before_quota() {
    let mut store = RateLimiterStore::new();
    let ip = test_ip_v6();
    for _ in 0..3 {
        let _ = store.record_auth_failure(ip);
    }
    assert_eq!(store.banned_count(), 1);
    assert!(matches!(store.check(ip), Err(CoreError::IpBanned { ip: p }) if p == ip));
}
