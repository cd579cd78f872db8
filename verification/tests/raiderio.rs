use mplus_tracker::config::RaiderIoConfig;
use mplus_tracker::raiderio::{
    error_message, error_message_with, retry_after_secs, server_error_message, Attempt,
    RaiderIoClient, Retry, RetryStep,
};

fn client(max_retries: u32, base_backoff_ms: u64, max_backoff_ms: u64) -> RaiderIoClient {
    RaiderIoClient::new(RaiderIoConfig {
        max_retries,
        base_backoff_ms,
        max_backoff_ms,
        ..RaiderIoConfig::default()
    })
}

fn response(status: u16, retry_after_secs: Option<u64>) -> Attempt {
    Attempt::Response { status, retry_after_secs }
}

#[test]
fn character_request() {
    let request = client(5, 1_000, 120_000).get_character_profile("us", "area-52", "Ashmain");
    assert_eq!(request.url, "https://raider.io/api/v1/characters/profile");
    let query: Vec<(&str, &str)> =
        request.query.iter().map(|p| (p.name, p.value.as_str())).collect();
    assert_eq!(
        query,
        vec![
            ("region", "us"),
            ("realm", "area-52"),
            ("name", "Ashmain"),
            ("fields", "mythic_plus_recent_runs"),
        ]
    );
}

#[test]
fn guild_request() {
    let request = client(5, 1_000, 120_000).get_guild_profile("eu", "draenor", "My Guild");
    assert_eq!(request.url, "https://raider.io/api/v1/guilds/profile");
    let query: Vec<(&str, &str)> =
        request.query.iter().map(|p| (p.name, p.value.as_str())).collect();
    assert_eq!(
        query,
        vec![
            ("region", "eu"),
            ("realm", "draenor"),
            ("name", "My Guild"),
            ("fields", "members"),
        ]
    );
}

#[test]
fn backoff_doubles_up_to_its_cap() {
    let client = client(5, 1_000, 120_000);
    let expected = [1_000, 1_000, 2_000, 4_000, 8_000, 16_000, 32_000, 64_000, 120_000, 120_000];
    for (attempt, ms) in expected.iter().enumerate() {
        assert_eq!(client.backoff_ms_with(attempt as u32, None, 0), *ms);
    }
    assert_eq!(client.backoff_ms_with(u32::MAX, None, 7), 120_007);
}

#[test]
fn backoff_at_the_limits() {
    assert_eq!(client(5, 0, 10).backoff_ms_with(u32::MAX, None, 0), 0);
    assert_eq!(client(5, 10, 0).backoff_ms_with(3, None, 0), 0);
    assert_eq!(client(5, u64::MAX, u64::MAX).backoff_ms_with(2, None, 5), u64::MAX);
    assert_eq!(client(5, 3, u64::MAX).backoff_ms_with(64, None, 0), u64::MAX);
    assert_eq!(client(5, 3, u64::MAX).backoff_ms_with(63, None, 0), 3 << 62);
}

#[test]
fn longer_of_header_and_backoff_counts() {
    let client = client(5, 1_000, 120_000);
    assert_eq!(client.backoff_ms_with(3, Some(3_999), 0), 4_000);
    assert_eq!(client.backoff_ms_with(3, Some(30_000), 900), 30_000);
}

#[test]
fn jitter_stays_within_a_quarter() {
    let client = client(5, 1_000, 120_000);
    let mut seen_more = false;
    for _ in 0..200 {
        let ms = client.backoff_ms(2, None);
        assert!(ms >= 2_000 && ms <= 2_500);
        seen_more = seen_more || ms > 2_000;
    }
    assert!(seen_more);
}

#[test]
fn retry_after_header() {
    assert_eq!(retry_after_secs(None), None);
    assert_eq!(retry_after_secs(Some(b"30")), Some(30));
    assert_eq!(retry_after_secs(Some(b"+7")), Some(7));
    assert_eq!(retry_after_secs(Some(b" 30")), None);
    assert_eq!(retry_after_secs(Some(b"-1")), None);
    assert_eq!(retry_after_secs(Some(b"")), None);
    assert_eq!(retry_after_secs(Some(b"Wed, 21 Oct 2015 07:28:00 GMT")), None);
    assert_eq!(retry_after_secs(Some(&[0x33, 0xff])), None);
    assert_eq!(retry_after_secs(Some(b"18446744073709551615")), Some(u64::MAX));
    assert_eq!(retry_after_secs(Some(b"18446744073709551616")), None);
}

#[test]
fn success_is_done_at_once() {
    let mut retry = Retry::new();
    for status in [200, 204, 299] {
        let step = client(5, 1_000, 120_000).get_with_retry(&mut retry, response(status, None));
        assert!(matches!(step, RetryStep::Done));
        assert_eq!(retry.attempt, 0);
    }
}

#[test]
fn other_statuses_are_not_retried() {
    let mut retry = Retry::new();
    for status in [100, 301, 400, 404, 428, 430, 600] {
        let step = client(5, 1_000, 120_000).get_with_retry(&mut retry, response(status, None));
        assert!(matches!(step, RetryStep::ReadError));
        assert_eq!(retry.attempt, 0);
    }
}

#[test]
fn transient_failures_are_retried_until_none_are_left() {
    let client = client(2, 1_000, 120_000);
    let mut retry = Retry::new();
    match client.get_with_retry(&mut retry, Attempt::NetworkError("refused".to_string())) {
        RetryStep::Wait(ms) => assert!(ms >= 1_000 && ms <= 1_250),
        step => panic!("{:?}", step),
    }
    match client.get_with_retry(&mut retry, response(503, Some(60))) {
        RetryStep::Wait(ms) => assert!(ms >= 2_000 && ms <= 2_500),
        step => panic!("{:?}", step),
    }
    assert_eq!(retry.attempt, 2);
    match client.get_with_retry(&mut retry, Attempt::NetworkError("refused".to_string())) {
        RetryStep::Fail(message) => {
            assert_eq!(message, "Network error after 3 attempts: refused")
        }
        step => panic!("{:?}", step),
    }
}

#[test]
fn rate_limit_waits_as_asked() {
    let client = client(1, 1_000, 120_000);
    let mut retry = Retry::new();
    match client.get_with_retry(&mut retry, response(429, Some(60))) {
        RetryStep::Wait(ms) => assert_eq!(ms, 60_000),
        step => panic!("{:?}", step),
    }
    match client.get_with_retry(&mut retry, response(429, Some(u64::MAX))) {
        RetryStep::Fail(message) => assert_eq!(message, "Rate limited after 2 attempts"),
        step => panic!("{:?}", step),
    }
}

#[test]
fn server_errors_give_up_with_their_status() {
    let client = client(0, 1_000, 120_000);
    match client.get_with_retry(&mut Retry::new(), response(503, None)) {
        RetryStep::Fail(message) => {
            assert_eq!(message, "Server error 503 Service Unavailable after 1 attempts")
        }
        step => panic!("{:?}", step),
    }
    match client.get_with_retry(&mut Retry::new(), response(599, None)) {
        RetryStep::Fail(message) => {
            assert_eq!(message, "Server error 599 <unknown status code> after 1 attempts")
        }
        step => panic!("{:?}", step),
    }
}

#[test]
fn messages_of_other_errors() {
    assert_eq!(
        error_message(400, "{\"message\":\"Could not find requested character\"}"),
        "Raider.IO error 400 Bad Request: {\"message\":\"Could not find requested character\"}"
    );
    assert_eq!(error_message(404, ""), "Raider.IO error 404 Not Found: ");
}

#[test]
fn messages_for_given_statuses() {
    assert_eq!(error_message_with("418 Tea", "pot"), "Raider.IO error 418 Tea: pot");
    assert_eq!(server_error_message("502 Bad", 6), "Server error 502 Bad after 6 attempts");
}

#[test]
fn wait_with_a_given_jitter() {
    let client = client(5, 1_000, 120_000);
    let mut retry = Retry { attempt: 2 };
    match client.get_with_retry_with(&mut retry, response(500, Some(60)), 123) {
        RetryStep::Wait(ms) => assert_eq!(ms, 4_123),
        step => panic!("{:?}", step),
    }
    assert_eq!(retry.attempt, 3);
    match client.get_with_retry_with(&mut retry, response(429, Some(9)), 123) {
        RetryStep::Wait(ms) => assert_eq!(ms, 9_000),
        step => panic!("{:?}", step),
    }
    match client.get_with_retry_with(&mut retry, response(429, None), 1) {
        RetryStep::Wait(ms) => assert_eq!(ms, 16_001),
        step => panic!("{:?}", step),
    }
    assert_eq!(retry.attempt, 5);
}
