use gatekeeper::config::{default_rocket_port, AppConfig};
use gatekeeper::error::{unauthorized, ErrorKind};

#[test]
fn config_port_defaults() {
    assert_eq!(default_rocket_port(), 8000);
    let c = AppConfig::load("mysql://db".to_string(), "h".to_string(), None);
    assert_eq!(c.database_url, "mysql://db");
    assert_eq!(c.presenter_password_hash, "h");
    assert_eq!(c.rocket_port, 8000);
    let c = AppConfig::load("u".to_string(), "h".to_string(), Some(9090));
    assert_eq!(c.rocket_port, 9090);
}

#[test]
fn error_kinds_map_to_statuses() {
    assert_eq!(unauthorized(), 401);
    assert_eq!(ErrorKind::Unauthenticated.status_code(), 401);
    assert_eq!(ErrorKind::GateClosed.status_code(), 412);
    assert_eq!(ErrorKind::AlreadyAdmitted.status_code(), 409);
    assert_eq!(ErrorKind::CapacityExceeded.status_code(), 409);
    assert_eq!(ErrorKind::SlotNotFound.status_code(), 404);
    assert_eq!(ErrorKind::EmptyPool.status_code(), 404);
    assert_eq!(ErrorKind::StoreUnavailable.status_code(), 500);
}

#[test]
fn only_store_failures_are_retryable() {
    assert!(ErrorKind::StoreUnavailable.is_retryable());
    assert!(!ErrorKind::AlreadyAdmitted.is_retryable());
    assert!(!ErrorKind::CapacityExceeded.is_retryable());
    assert!(!ErrorKind::GateClosed.is_retryable());
    assert!(!ErrorKind::Unauthenticated.is_retryable());
}
