use gatekeeper::error::ErrorKind;
use gatekeeper::sessions::{AuthStatus, SessionManager};

fn manager(password: &str, ttl: Option<u32>) -> SessionManager {
    SessionManager::new(bcrypt::hash(password, 4).unwrap(), ttl)
}

#[test]
fn expired_token_is_rejected_and_deleted() {
    let mut m = manager("pw", Some(10));
    assert_eq!(m.issue("t".to_string(), 100), Ok(()));
    assert_eq!(m.validate_at("t", 110), AuthStatus::Authenticated);
    assert_eq!(m.validate_at("t", 111), AuthStatus::Unauthenticated);
    assert_eq!(m.len(), 0);
    assert_eq!(m.validate_at("t", 50), AuthStatus::Unauthenticated);
    assert_eq!(m.validate_at("t", 111), AuthStatus::Unauthenticated);
    assert_eq!(m.len(), 0);
}

#[test]
fn sessions_without_lifetime_never_expire() {
    let mut m = manager("pw", None);
    m.issue("t".to_string(), 0).unwrap();
    assert_eq!(m.validate_at("t", i64::MAX), AuthStatus::Authenticated);
    assert_eq!(m.len(), 1);
}

#[test]
fn expiry_near_the_end_of_time_is_held() {
    let mut m = manager("pw", Some(100));
    m.issue("t".to_string(), i64::MAX - 5).unwrap();
    assert_eq!(m.validate_at("t", i64::MAX), AuthStatus::Authenticated);
}

#[test]
fn unknown_token_is_unauthenticated() {
    let mut m = manager("pw", Some(10));
    m.issue("abc".to_string(), 0).unwrap();
    assert_eq!(m.validate_at("abd", 0), AuthStatus::Unauthenticated);
    assert_eq!(m.validate_at("ab", 0), AuthStatus::Unauthenticated);
    assert_eq!(m.len(), 1);
}

#[test]
fn duplicate_token_is_refused() {
    let mut m = manager("pw", Some(10));
    assert_eq!(m.issue("t".to_string(), 0), Ok(()));
    assert_eq!(m.issue("t".to_string(), 5), Err(ErrorKind::StoreUnavailable));
    assert_eq!(m.len(), 1);
}

#[test]
fn logout_revokes_for_good() {
    let mut m = manager("pw", None);
    m.issue("a".to_string(), 0).unwrap();
    m.issue("b".to_string(), 0).unwrap();
    m.logout("a");
    assert_eq!(m.validate_at("a", 0), AuthStatus::Unauthenticated);
    assert_eq!(m.validate_at("b", 0), AuthStatus::Authenticated);
    m.logout("a");
    assert_eq!(m.len(), 1);
}

#[test]
fn login_with_outcomes() {
    let mut m = manager("pw", Some(60));
    assert_eq!(
        m.login_with(false, "t".to_string(), 0),
        Err(ErrorKind::Unauthenticated)
    );
    assert_eq!(m.len(), 0);
    assert_eq!(m.login_with(true, "t".to_string(), 0), Ok("t".to_string()));
    assert_eq!(
        m.login_with(true, "t".to_string(), 0),
        Err(ErrorKind::StoreUnavailable)
    );
    assert_eq!(m.validate_at("t", 60), AuthStatus::Authenticated);
    assert_eq!(m.validate_at("t", 61), AuthStatus::Unauthenticated);
}

#[test]
fn login_checks_the_bcrypt_hash() {
    let mut m = manager("secret", Some(3600));
    assert_eq!(m.login("wrong"), Err(ErrorKind::Unauthenticated));
    assert_eq!(m.login(""), Err(ErrorKind::Unauthenticated));
    assert_eq!(m.len(), 0);
    let token = m.login("secret").unwrap();
    assert_eq!(token.chars().count(), 36);
    assert_eq!(m.validate(&token), AuthStatus::Authenticated);
    let other = m.login("secret").unwrap();
    assert_ne!(token, other);
    assert_eq!(m.len(), 2);
}

#[test]
fn unparsable_hash_accepts_nothing() {
    let mut m = SessionManager::new("not a hash".to_string(), None);
    assert_eq!(m.login("not a hash"), Err(ErrorKind::Unauthenticated));
    assert_eq!(m.len(), 0);
}

#[test]
fn validate_uses_the_clock() {
    let mut m = manager("pw", Some(10));
    m.issue("old".to_string(), 0).unwrap();
    m.issue("fresh".to_string(), i64::MAX - 20).unwrap();
    assert_eq!(m.validate("old"), AuthStatus::Unauthenticated);
    assert_eq!(m.validate("fresh"), AuthStatus::Authenticated);
    assert_eq!(m.len(), 1);
}
