use webrtc_server::schedule::{poll_timeout, DEFAULT_POLL_TIMEOUT_NANOS, MIN_POLL_TIMEOUT_NANOS};

#[test]
fn no_deadline_waits_default() {
    assert_eq!(poll_timeout(&[], 5), DEFAULT_POLL_TIMEOUT_NANOS);
    assert_eq!(DEFAULT_POLL_TIMEOUT_NANOS, 30_000_000_000);
}

#[test]
fn waits_until_earliest_deadline() {
    assert_eq!(poll_timeout(&[100_000_000, 50_000_000, 70_000_000], 10_000_000), 40_000_000);
}

#[test]
fn passed_deadline_waits_minimum() {
    assert_eq!(poll_timeout(&[5, 100_000_000_000], 10), MIN_POLL_TIMEOUT_NANOS);
    assert_eq!(MIN_POLL_TIMEOUT_NANOS, 1_000_000);
}

#[test]
fn near_deadline_waits_minimum() {
    assert_eq!(poll_timeout(&[10 + 999_999], 10), MIN_POLL_TIMEOUT_NANOS);
    assert_eq!(poll_timeout(&[10 + 1_000_001], 10), 1_000_001);
}

#[test]
fn far_deadline_may_exceed_default() {
    assert_eq!(poll_timeout(&[40_000_000_000], 0), 40_000_000_000);
}
