use fileshare::models::{AppState, LoginPayload};
use fileshare::rate_limit::{throttled_login, RateLimiter, ThrottledLogin};

const ALICE: u128 = 0x0a00_0001;
const BOB: u128 = 0x0a00_0002;

#[test]
fn burst_is_admitted_then_throttled() {
    let mut limiter = RateLimiter::new(3, 1000);
    assert!(limiter.check(ALICE, 0));
    assert!(limiter.check(ALICE, 100));
    assert!(limiter.check(ALICE, 200));
    assert!(!limiter.check(ALICE, 300));
    assert!(!limiter.check(ALICE, 999));
}

#[test]
fn refill_restores_one_attempt_per_interval() {
    let mut limiter = RateLimiter::new(3, 1000);
    for t in [0, 1, 2] {
        assert!(limiter.check(ALICE, t));
    }
    assert!(!limiter.check(ALICE, 500));
    assert!(limiter.check(ALICE, 1000));
    assert!(!limiter.check(ALICE, 1100));
}

#[test]
fn clients_are_throttled_independently() {
    let mut limiter = RateLimiter::new(2, 1000);
    assert!(limiter.check(ALICE, 0));
    assert!(limiter.check(ALICE, 0));
    assert!(!limiter.check(ALICE, 0));
    assert!(limiter.check(BOB, 0));
    assert!(limiter.check(BOB, 0));
    assert!(!limiter.check(BOB, 0));
}

#[test]
fn throttling_is_independent_of_the_password() {
    let state = AppState {
        metadata: Vec::new(),
        password: "secret".to_string(),
        auth_token: "tok".to_string(),
    };
    let right = LoginPayload { password: "secret".to_string() };
    let wrong = LoginPayload { password: "guess".to_string() };
    let mut limiter = RateLimiter::new(3, 1000);

    assert!(matches!(
        throttled_login(&mut limiter, ALICE, 0, &state, &wrong),
        ThrottledLogin::Attempted(_)
    ));
    assert!(matches!(
        throttled_login(&mut limiter, ALICE, 1, &state, &wrong),
        ThrottledLogin::Attempted(_)
    ));
    assert!(matches!(
        throttled_login(&mut limiter, ALICE, 2, &state, &wrong),
        ThrottledLogin::Attempted(_)
    ));
    // the excess attempt is throttled even though its password is correct
    assert!(matches!(
        throttled_login(&mut limiter, ALICE, 3, &state, &right),
        ThrottledLogin::RateLimited
    ));
}
