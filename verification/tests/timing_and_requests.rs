use expose::backoff::{next_backoff, INITIAL_BACKOFF_SECS, MAX_BACKOFF_SECS};
use expose::heartbeat::{Heartbeat, HeartbeatAction};
use expose::request::{is_tunnel_request, tunnel_prefix};
use expose::{HeartbeatConfig, DEFAULT_HEARTBEAT_INTERVAL_SECS, DEFAULT_HEARTBEAT_MAX_MISSED};
use std::time::Duration;

#[test]
fn backoff_doubles_up_to_a_minute() {
    let mut waits = vec![INITIAL_BACKOFF_SECS];
    for _ in 0..8 {
        waits.push(next_backoff(*waits.last().unwrap()));
    }
    assert_eq!(waits, vec![1, 2, 4, 8, 16, 32, 60, 60, 60]);
    assert_eq!(next_backoff(29), 58);
    assert_eq!(next_backoff(30), 60);
    assert_eq!(next_backoff(u64::MAX), MAX_BACKOFF_SECS);
}

#[test]
fn heartbeat_closes_after_max_missed() {
    let mut heartbeat = Heartbeat::new(HeartbeatConfig {
        interval: Duration::from_secs(1),
        max_missed: 3,
    });
    for _ in 0..3 {
        assert_eq!(heartbeat.on_tick(), HeartbeatAction::Ping);
    }
    assert_eq!(heartbeat.on_tick(), HeartbeatAction::Close);
    heartbeat.on_pong();
    assert_eq!(heartbeat.missed, 0);
    assert_eq!(heartbeat.on_tick(), HeartbeatAction::Ping);
}

#[test]
fn heartbeat_that_tolerates_nothing() {
    let mut heartbeat = Heartbeat::new(HeartbeatConfig {
        interval: Duration::from_secs(1),
        max_missed: 0,
    });
    assert_eq!(heartbeat.on_tick(), HeartbeatAction::Close);
}

#[test]
fn heartbeat_defaults() {
    let heartbeat = Heartbeat::new(HeartbeatConfig::default());
    assert!(heartbeat.enabled());
    assert_eq!(
        heartbeat.config.interval,
        Duration::from_secs(DEFAULT_HEARTBEAT_INTERVAL_SECS)
    );
    assert_eq!(heartbeat.config.max_missed, DEFAULT_HEARTBEAT_MAX_MISSED);
    let off = Heartbeat::new(HeartbeatConfig {
        interval: Duration::ZERO,
        max_missed: 3,
    });
    assert!(!off.enabled());
    let fast = Heartbeat::new(HeartbeatConfig {
        interval: Duration::from_millis(250),
        max_missed: 3,
    });
    assert!(fast.enabled());
}

#[test]
fn prefix_of_a_token() {
    assert_eq!(tunnel_prefix("mysecret"), "GET /mysecret ");
    assert_eq!(tunnel_prefix(""), "GET / ");
    assert_eq!(tunnel_prefix("gr\u{fc}n"), "GET /gr\u{fc}n ");
}

#[test]
fn tunnel_client_is_told_from_visitors() {
    let prefix = tunnel_prefix("mysecret");
    assert!(is_tunnel_request(
        b"GET /mysecret HTTP/1.1\r\nHost: x\r\n",
        &prefix
    ));
    assert!(is_tunnel_request(b"GET /mysecret ", &prefix));
    assert!(!is_tunnel_request(b"GET /mysecret", &prefix));
    assert!(!is_tunnel_request(b"GET /mysecrets HTTP/1.1", &prefix));
    assert!(!is_tunnel_request(b"GET /other HTTP/1.1", &prefix));
    assert!(!is_tunnel_request(b"POST /mysecret HTTP/1.1", &prefix));
    assert!(!is_tunnel_request(b"", &prefix));
}

#[test]
fn bytes_that_are_not_text_are_a_visitors() {
    let prefix = tunnel_prefix("mysecret");
    let mut request = b"GET /mysecret HTTP/1.1\r\n".to_vec();
    assert!(is_tunnel_request(&request, &prefix));
    request.push(0xff);
    assert!(!is_tunnel_request(&request, &prefix));
    let mut cut = b"GET /mysecret ".to_vec();
    cut.extend_from_slice(&"\u{20ac}".as_bytes()[..2]);
    assert!(!is_tunnel_request(&cut, &prefix));
    cut.push("\u{20ac}".as_bytes()[2]);
    assert!(is_tunnel_request(&cut, &prefix));
}

#[test]
fn token_beyond_ascii() {
    let prefix = tunnel_prefix("gr\u{fc}n");
    assert!(is_tunnel_request(
        "GET /gr\u{fc}n HTTP/1.1".as_bytes(),
        &prefix
    ));
    assert!(!is_tunnel_request(
        "GET /gru\u{308}n HTTP/1.1".as_bytes(),
        &prefix
    ));
}
