use std::time::{Duration, Instant};
use vault::server::session_manager::SessionManager;

fn seconds(count: u128) -> u128 {
    count * 1_000_000_000
}

/// Lets that much time pass on the clock.
fn wait(duration: Duration) {
    let start = Instant::now();
    while start.elapsed() < duration {
        std::hint::spin_loop();
    }
}

#[test]
fn tokens() {
    let mut session_manager = SessionManager::new(60);

    let token1 = session_manager.new_session("org1");
    let token2 = session_manager.new_session("org2");
    let token3 = session_manager.new_session("org3");

    assert_eq!(session_manager.get_organization_name_from_token(&token2).unwrap(), "org2");
    assert_eq!(session_manager.get_organization_name_from_token(&token1).unwrap(), "org1");
    assert_eq!(session_manager.get_organization_name_from_token(&token3).unwrap(), "org3");
}

#[test]
fn end_session() {
    let mut session_manager = SessionManager::new(60);

    let token = session_manager.new_session("org");
    session_manager.end_session(&token);
    assert!(session_manager.get_organization_name_from_token(&token).is_none());
}

#[test]
fn timeout() {
    let mut session_manager = SessionManager::new(1);
    let token = session_manager.new_session("org1");
    wait(Duration::from_secs(2));
    assert!(session_manager.get_organization_name_from_token(&token).is_none());
}

#[test]
fn a_session_is_live_before_its_timeout_on_the_clock() {
    let mut session_manager = SessionManager::new(3);
    let token = session_manager.new_session("org1");
    wait(Duration::from_millis(200));
    assert_eq!(session_manager.get_organization_name_from_token(&token), Some("org1".to_string()));
    wait(Duration::from_millis(3100));
    session_manager.end_session(&vec![0u8; 32]);
    assert_eq!(session_manager.get_organization_name_from_token(&token), None);
}

#[test]
fn two_seconds_after_a_timeout_of_one_second() {
    let mut session_manager = SessionManager::new(1);
    session_manager.open_session_at("org1", vec![1u8; 32], seconds(0));
    assert!(session_manager.lookup_at(&vec![1u8; 32], seconds(2)).is_none());
}

#[test]
fn the_age_of_a_session_is_counted_in_whole_seconds_of_the_time_that_passed() {
    let token = vec![9u8; 32];
    // From 0.9 s to 1.1 s a fifth of a second passes: no whole second.
    let mut session_manager = SessionManager::new(1);
    session_manager.open_session_at("org", token.clone(), 900_000_000);
    assert_eq!(session_manager.lookup_at(&token, 1_100_000_000), Some("org".to_string()));
    // From 1.1 s to 2.099999999 s still none; one nanosecond later, one.
    assert_eq!(session_manager.lookup_at(&token, 2_099_999_999), Some("org".to_string()));

    let mut session_manager = SessionManager::new(1);
    session_manager.open_session_at("org", token.clone(), 1_100_000_000);
    assert_eq!(session_manager.lookup_at(&token, 2_100_000_000), None);
}

#[test]
fn session_manager_wrong_token() {
    let mut session_manager = SessionManager::new(60);
    session_manager.new_session("org1");
    session_manager.new_session("org2");
    session_manager.new_session("org3");

    assert!(session_manager
        .get_organization_name_from_token(&dryoc::rng::randombytes_buf(32))
        .is_none());
}

#[test]
fn tokens_have_32_bytes_and_differ() {
    let mut session_manager = SessionManager::new(60);
    let token1 = session_manager.new_session("org");
    let token2 = session_manager.new_session("org");
    assert_eq!(token1.len(), 32);
    assert_eq!(token2.len(), 32);
    assert_ne!(token1, token2);
    assert_ne!(token1, vec![0u8; 32]);
}

#[test]
fn a_session_expires_after_the_timeout_exactly() {
    let token = vec![9u8; 32];
    let mut session_manager = SessionManager::new(300);
    session_manager.open_session_at("org", token.clone(), seconds(1000));
    assert_eq!(session_manager.lookup_at(&token, seconds(1299)), Some("org".to_string()));

    let mut session_manager = SessionManager::new(300);
    session_manager.open_session_at("org", token.clone(), seconds(1000));
    assert_eq!(session_manager.lookup_at(&token, seconds(1300)), None);
}

#[test]
fn a_lookup_refreshes_the_session() {
    let token = vec![9u8; 32];
    let mut session_manager = SessionManager::new(300);
    session_manager.open_session_at("org", token.clone(), seconds(0));
    assert_eq!(session_manager.lookup_at(&token, seconds(299)), Some("org".to_string()));
    assert_eq!(session_manager.lookup_at(&token, seconds(598)), Some("org".to_string()));
    assert_eq!(session_manager.lookup_at(&token, seconds(898)), None);
}

#[test]
fn an_expired_token_never_comes_back() {
    let token = vec![9u8; 32];
    let other = vec![8u8; 32];
    let mut session_manager = SessionManager::new(10);
    session_manager.open_session_at("org", token.clone(), seconds(0));
    session_manager.open_session_at("other", other.clone(), seconds(5));
    // The lookup of another token at 10 purges the first session.
    assert_eq!(session_manager.lookup_at(&other, seconds(10)), Some("other".to_string()));
    // Even a clock that went back does not bring it back.
    assert_eq!(session_manager.lookup_at(&token, seconds(0)), None);
    assert_eq!(session_manager.lookup_at(&token, seconds(11)), None);
    session_manager.end_session_at(&other, seconds(11));
    assert_eq!(session_manager.lookup_at(&token, seconds(11)), None);
    assert_eq!(session_manager.lookup_at(&other, seconds(11)), None);
}

#[test]
fn a_clock_that_went_back_expires_nothing() {
    let token = vec![9u8; 32];
    let mut session_manager = SessionManager::new(10);
    session_manager.open_session_at("org", token.clone(), seconds(100));
    assert_eq!(session_manager.lookup_at(&token, seconds(50)), Some("org".to_string()));
    assert_eq!(session_manager.lookup_at(&token, seconds(59)), Some("org".to_string()));
}

#[test]
fn with_timeout_zero_every_session_is_expired() {
    let token = vec![9u8; 32];
    let mut session_manager = SessionManager::new(0);
    session_manager.open_session_at("org", token.clone(), seconds(5));
    assert_eq!(session_manager.lookup_at(&token, seconds(5)), None);
}

#[test]
fn opening_under_a_token_in_use_replaces_its_session() {
    let token = vec![9u8; 32];
    let mut session_manager = SessionManager::new(60);
    session_manager.open_session_at("first", token.clone(), seconds(0));
    session_manager.open_session_at("second", token.clone(), seconds(1));
    assert_eq!(session_manager.lookup_at(&token, seconds(2)), Some("second".to_string()));
    session_manager.end_session_at(&token, seconds(3));
    assert_eq!(session_manager.lookup_at(&token, seconds(3)), None);
}

#[test]
fn ending_a_session_twice_is_ending_it_once() {
    let token = vec![9u8; 32];
    let other = vec![8u8; 32];
    let mut session_manager = SessionManager::new(60);
    session_manager.open_session_at("org", token.clone(), seconds(0));
    session_manager.open_session_at("other", other.clone(), seconds(0));
    session_manager.end_session_at(&token, seconds(1));
    session_manager.end_session_at(&token, seconds(1));
    session_manager.end_session_at(&vec![7u8; 32], seconds(1));
    assert_eq!(session_manager.lookup_at(&token, seconds(1)), None);
    assert_eq!(session_manager.lookup_at(&other, seconds(1)), Some("other".to_string()));
}
