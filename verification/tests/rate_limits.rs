use betcore::errors::AppError;
use betcore::rates::{
    IpRateLimiter, RateLimitConfig, RateLimitType, RateLimiter, RateLimiters, UserRateLimiter,
};

use uuid::Uuid;

#[test]
fn test_rate_limiter_allows_within_quota() {
    let mut limiter = RateLimiter::new(RateLimitType::Bet, 5, 60);

    // Should allow first 5 requests
    for _ in 0..5 {
        assert!(limiter.check(0).is_ok());
    }
}

#[test]
fn test_rate_limiter_blocks_over_quota() {
    let mut limiter = RateLimiter::new(RateLimitType::Bet, 2, 60);

    // Allow first 2 requests
    assert!(limiter.check(0).is_ok());
    assert!(limiter.check(0).is_ok());

    // Third request should be blocked
    assert!(limiter.check(0).is_err());
}

#[test]
fn test_user_rate_limiter() {
    let mut limiter = UserRateLimiter::new(RateLimitType::Bet, 3, 60);
    let user1 = Uuid::new_v4().as_u128();
    let user2 = Uuid::new_v4().as_u128();

    // User 1 can make 3 requests
    assert!(limiter.check(user1, 0).is_ok());
    assert!(limiter.check(user1, 0).is_ok());
    assert!(limiter.check(user1, 0).is_ok());
    assert!(limiter.check(user1, 0).is_err());

    // User 2 should have independent quota
    assert!(limiter.check(user2, 0).is_ok());
    assert!(limiter.check(user2, 0).is_ok());
}

#[test]
fn test_ip_rate_limiter() {
    let mut limiter = IpRateLimiter::new(RateLimitType::Login, 2, 60);
    let ip1 = "192.168.1.1";
    let ip2 = "192.168.1.2";

    // IP 1 can make 2 requests
    assert!(limiter.check(ip1, 0).is_ok());
    assert!(limiter.check(ip1, 0).is_ok());
    assert!(limiter.check(ip1, 0).is_err());

    // IP 2 should have independent quota
    assert!(limiter.check(ip2, 0).is_ok());
}

#[test]
fn test_window_elapse_refills() {
    // Five tokens per 60 seconds: five calls succeed, the sixth is denied,
    // and once the window has elapsed a call succeeds again.
    let mut limiter = RateLimiter::new(RateLimitType::Bet, 5, 60);
    for _ in 0..5 {
        assert!(limiter.check(0).is_ok());
    }
    let denied = limiter.check(0);
    assert!(matches!(denied, Err(AppError::RateLimitExceeded(_))));
    assert!(limiter.check(60).is_ok());
}

#[test]
fn test_denial_carries_quota() {
    let mut limiter = RateLimiter::new(RateLimitType::Bet, 5, 60);
    for _ in 0..5 {
        let _ = limiter.check(0);
    }
    match limiter.check(0) {
        Err(AppError::RateLimitExceeded(msg)) => {
            assert_eq!(msg, "Rate limit exceeded: 5 requests per 60 seconds allowed");
        }
        other => panic!("expected a rate-limit denial, got {:?}", other.is_ok()),
    }
}

#[test]
fn test_rate_limiters_container() {
    let config = RateLimitConfig {
        bet_rate_limit_per_minute: 2,
        login_rate_limit_per_minute: 2,
        register_rate_limit_per_hour: 1,
    };
    let mut limiters = RateLimiters::new(&config);
    let user = Uuid::new_v4().as_u128();

    assert!(limiters.check_bet_limit(user, 0).is_ok());
    assert!(limiters.check_bet_limit(user, 0).is_ok());
    assert!(limiters.check_bet_limit(user, 0).is_err());

    assert!(limiters.check_login_limit("10.0.0.1", 0).is_ok());
    assert!(limiters.check_register_limit("10.0.0.1", 0).is_ok());
    assert!(limiters.check_register_limit("10.0.0.1", 0).is_err());
    assert!(limiters.check_deposit_limit(user, 0).is_ok());
    assert!(limiters.check_withdraw_limit(user, 0).is_ok());
    assert!(limiters.check_api_limit("10.0.0.1", 0).is_ok());

    let stats = limiters.get_stats();
    assert_eq!(stats.tracked_bet_users, 1);
    assert_eq!(stats.tracked_login_ips, 1);
    assert_eq!(stats.tracked_register_ips, 1);
    limiters.cleanup_all();

    let mut single = RateLimiter::new(RateLimitType::ApiGeneral, 9, 30);
    assert_eq!(single.get_quota_info(), (9, 30));
    let _ = single.check(0);
}
