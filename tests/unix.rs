use vrl_compiler::unix::{
    datagram_send_outcome, default_unix_mode, ConnectAction, ExponentialBackoff, SendOutcome, UnixConnector,
    UnixMode, UnixSinkConfig,
};

#[test]
fn config_keeps_path_and_mode() {
    let config = UnixSinkConfig::new("/path/to/socket".to_string(), UnixMode::Datagram);
    assert_eq!(config.path, "/path/to/socket");
    assert_eq!(config.unix_mode(), UnixMode::Datagram);
    let connector = config.connector();
    assert_eq!(connector.path, "/path/to/socket");
    assert_eq!(connector.mode, UnixMode::Datagram);
    assert_eq!(default_unix_mode(), UnixMode::Stream);
}

#[test]
fn fresh_backoff_delays() {
    let mut b = UnixConnector::fresh_backoff();
    let got: Vec<u64> = (0..10).map(|_| b.next()).collect();
    assert_eq!(got, vec![500, 1000, 2000, 4000, 8000, 16000, 32000, 60000, 60000, 60000]);
}

#[test]
fn backoff_saturates() {
    let mut b = ExponentialBackoff::from_millis(u64::MAX / 2).factor(3);
    assert_eq!(b.next(), u64::MAX);
    assert_eq!(b.current, u64::MAX);
    let mut plain = ExponentialBackoff::from_millis(10);
    assert_eq!(plain.next(), 10);
    assert_eq!(plain.next(), 100);
}

#[test]
fn retry_only_after_a_failure() {
    let mut b = UnixConnector::fresh_backoff();
    assert_eq!(UnixConnector::after_attempt(&mut b, true), ConnectAction::Proceed);
    assert_eq!(b, UnixConnector::fresh_backoff());
    assert_eq!(UnixConnector::after_attempt(&mut b, false), ConnectAction::RetryAfter(500));
    assert_eq!(UnixConnector::after_attempt(&mut b, false), ConnectAction::RetryAfter(1000));
}

#[test]
fn datagram_outcomes() {
    assert_eq!(datagram_send_outcome(None, 4), SendOutcome::Errored);
    assert_eq!(datagram_send_outcome(Some(4), 4), SendOutcome::Delivered { incomplete: false });
    assert_eq!(datagram_send_outcome(Some(2), 4), SendOutcome::Delivered { incomplete: true });
}
