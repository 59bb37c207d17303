use hotmic::{
    join_all, AsScoped, duration_as_nanos, format_recv_error, format_send_error, io_error, join_scope,
    nanos_from_parts, Mock, RecvError, SendError,
};
use std::time::Duration;

#[test]
fn test_simple_duration_as_nanos() {
    let d1 = Duration::from_secs(3);
    let d2 = Duration::from_millis(500);

    assert_eq!(duration_as_nanos(d1), 3_000_000_000);
    assert_eq!(duration_as_nanos(d2), 500_000_000);
}

#[test]
fn duration_as_nanos_saturates() {
    assert_eq!(duration_as_nanos(Duration::new(u64::MAX, 5)), u64::MAX);
    assert_eq!(duration_as_nanos(Duration::new(1, 5)), 1_000_000_005);
}

#[test]
fn nanos_from_parts_checks_overflow() {
    assert_eq!(nanos_from_parts(2, 7), Some(2_000_000_007));
    assert_eq!(nanos_from_parts(18_446_744_073, 709_551_615), Some(u64::MAX));
    assert_eq!(nanos_from_parts(18_446_744_073, 709_551_616), None);
    assert_eq!(nanos_from_parts(u64::MAX, 0), None);
}

#[test]
fn scopes_join_with_a_dot() {
    assert_eq!(join_scope("", "a"), "a");
    assert_eq!(join_scope("listener", "a"), "listener.a");
    assert_eq!(join_scope("listener.a", "messages"), "listener.a.messages");
}

#[test]
fn error_texts() {
    assert_eq!(format_recv_error(&RecvError::Empty), "empty");
    assert_eq!(RecvError::Disconnected.description(), "disconnected");
    assert_eq!(format_send_error(&SendError::Full(1)), "full");
    assert_eq!(SendError::Disconnected(1).description(), "disconnected");
    assert_eq!(format_send_error::<u8>(&SendError::Io(io_error("boom"))), "boom");
}

#[test]
fn mock_clock_moves_by_hand() {
    let mock = Mock::new(10);
    assert_eq!(mock.now(), 10);
    mock.increment(5);
    assert_eq!(mock.start(), 15);
    assert_eq!(mock.end(), 15);
}

#[test]
fn scopes_join_in_parts() {
    assert_eq!(join_all("", &["listener", "a"]), "listener.a");
    assert_eq!(join_all("x", &[]), "x");
    let parts: [&str; 2] = ["a", "b"];
    assert_eq!(parts[..].as_scoped("r".to_string()), "r.a.b");
    assert_eq!("a".as_scoped(String::new()), "a");
    assert_eq!("a".as_scoped("base".to_string()), "base.a");
}
