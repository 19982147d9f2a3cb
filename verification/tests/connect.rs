use crazy_portal::connect::{ConnectRetry, RetryDecision};

#[test]
fn gives_up_at_limit() {
    let mut r = ConnectRetry::new(5);
    assert_eq!(r.on_failure(false), RetryDecision::Retry { attempt: 1 });
    assert_eq!(r.on_failure(true), RetryDecision::Retry { attempt: 2 });
    assert_eq!(r.on_failure(false), RetryDecision::Retry { attempt: 3 });
    assert_eq!(r.on_failure(false), RetryDecision::Retry { attempt: 4 });
    assert_eq!(r.on_failure(true), RetryDecision::GiveUp { timed_out: true });
    assert_eq!(r.attempts, 5);
}

#[test]
fn limit_one_gives_up_at_once() {
    let mut r = ConnectRetry::new(1);
    assert_eq!(r.on_failure(false), RetryDecision::GiveUp { timed_out: false });
}

#[test]
fn fresh_counter_retries() {
    let mut r = ConnectRetry::new(3);
    assert_eq!(r.on_failure(true), RetryDecision::Retry { attempt: 1 });
    let mut again = ConnectRetry::new(3);
    assert_eq!(again.on_failure(true), RetryDecision::Retry { attempt: 1 });
}
