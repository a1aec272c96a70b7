use retry_backoff::backoff::RetryConfig;
use retry_backoff::retry::{
    decide, parse_retry_after, run_retry, secs_to_ms, AttemptOutcome, RetryDecision, RetryResult,
};

fn cfg(max_retries: u32) -> RetryConfig {
    RetryConfig {
        max_retries,
        initial_backoff_ms: 1000,
        max_backoff_ms: 32000,
        backoff_multiplier_milli: 2000,
    }
}

fn resp(status: u16, retry_after: Option<&str>) -> AttemptOutcome {
    AttemptOutcome::Response {
        status,
        retry_after: retry_after.map(|s| s.to_string()),
    }
}

fn transport(message: &str) -> AttemptOutcome {
    AttemptOutcome::TransportError {
        message: message.to_string(),
    }
}

#[test]
fn no_retry_transport_error_propagates() {
    let outcomes = vec![transport("connection refused")];
    let run = run_retry(&cfg(0), &outcomes);
    assert_eq!(run.submissions, 1);
    assert!(run.sleeps_ms.is_empty());
    match run.result {
        RetryResult::TransportFailure { message } => assert_eq!(message, "connection refused"),
        _ => panic!("expected a transport failure"),
    }
}

#[test]
fn no_retry_even_a_429_is_returned() {
    let outcomes = vec![resp(429, None)];
    let run = run_retry(&cfg(0), &outcomes);
    assert_eq!(run.submissions, 1);
    assert!(run.sleeps_ms.is_empty());
    assert!(matches!(
        run.result,
        RetryResult::Completed { attempt: 0, status: 429 }
    ));
}

#[test]
fn success_on_first_attempt_returns_immediately() {
    let outcomes = vec![resp(200, None), resp(429, None), resp(429, None), resp(429, None)];
    let run = run_retry(&cfg(3), &outcomes);
    assert_eq!(run.submissions, 1);
    assert!(run.sleeps_ms.is_empty());
    assert!(matches!(
        run.result,
        RetryResult::Completed { attempt: 0, status: 200 }
    ));
}

#[test]
fn success_midway_stops_the_loop() {
    let outcomes = vec![resp(429, None), resp(201, None), resp(429, None)];
    let run = run_retry(&cfg(2), &outcomes);
    assert_eq!(run.submissions, 2);
    assert_eq!(run.sleeps_ms, vec![1000]);
    assert!(matches!(
        run.result,
        RetryResult::Completed { attempt: 1, status: 201 }
    ));
}

#[test]
fn exhausted_budget_returns_last_429() {
    let outcomes = vec![resp(429, None), resp(429, None), resp(429, None)];
    let run = run_retry(&cfg(2), &outcomes);
    assert_eq!(run.submissions, 3);
    assert_eq!(run.sleeps_ms, vec![1000, 2000]);
    assert!(matches!(
        run.result,
        RetryResult::Completed { attempt: 2, status: 429 }
    ));
}

#[test]
fn retry_after_hint_overrides_backoff() {
    let outcomes = vec![resp(429, Some("3")), resp(200, None)];
    let run = run_retry(&cfg(1), &outcomes);
    assert_eq!(run.submissions, 2);
    // 3 whole seconds, not the 1000 ms the schedule would have given
    assert_eq!(run.sleeps_ms, vec![3000]);
    assert!(matches!(
        run.result,
        RetryResult::Completed { attempt: 1, status: 200 }
    ));
}

#[test]
fn unparseable_retry_after_falls_back_to_backoff() {
    let outcomes = vec![resp(429, Some("not-a-number")), resp(200, None)];
    let run = run_retry(&cfg(1), &outcomes);
    assert_eq!(run.submissions, 2);
    assert_eq!(run.sleeps_ms, vec![1000]);
}

#[test]
fn persistent_transport_failure_aggregates_last_error() {
    let outcomes = vec![transport("e0"), transport("e1"), transport("e2")];
    let run = run_retry(&cfg(2), &outcomes);
    assert_eq!(run.submissions, 3);
    assert_eq!(run.sleeps_ms, vec![1000, 2000]);
    match run.result {
        RetryResult::TransportFailure { message } => assert_eq!(message, "e2"),
        _ => panic!("expected a transport failure"),
    }
}

#[test]
fn clone_failure_is_a_config_error() {
    let outcomes = vec![AttemptOutcome::CloneFailed, resp(200, None)];
    let run = run_retry(&cfg(1), &outcomes);
    assert_eq!(run.submissions, 1);
    assert!(run.sleeps_ms.is_empty());
    assert!(matches!(run.result, RetryResult::ConfigError));
}

#[test]
fn decide_waits_on_429_with_budget() {
    let d = decide(&cfg(2), 0, &resp(429, None));
    assert_eq!(d, RetryDecision::Wait { wait_ms: 1000 });
}

#[test]
fn decide_returns_final_429_when_budget_spent() {
    let d = decide(&cfg(2), 2, &resp(429, None));
    assert_eq!(d, RetryDecision::ReturnResponse);
}

#[test]
fn decide_returns_any_non_429_response() {
    assert_eq!(decide(&cfg(2), 0, &resp(500, None)), RetryDecision::ReturnResponse);
    assert_eq!(decide(&cfg(2), 1, &resp(204, None)), RetryDecision::ReturnResponse);
}

#[test]
fn decide_waits_after_transport_error_with_budget() {
    let d = decide(&cfg(2), 1, &transport("reset"));
    assert_eq!(d, RetryDecision::Wait { wait_ms: 2000 });
}

#[test]
fn decide_gives_up_after_final_transport_error() {
    let d = decide(&cfg(2), 2, &transport("reset"));
    assert_eq!(d, RetryDecision::GiveUp);
}

#[test]
fn decide_fails_fast_on_clone_failure() {
    let d = decide(&cfg(2), 0, &AttemptOutcome::CloneFailed);
    assert_eq!(d, RetryDecision::FailConfig);
}

#[test]
fn parse_retry_after_whole_seconds() {
    assert_eq!(parse_retry_after("3"), Some(3));
    assert_eq!(parse_retry_after("0"), Some(0));
    assert_eq!(parse_retry_after("007"), Some(7));
    assert_eq!(parse_retry_after("+7"), Some(7));
    assert_eq!(parse_retry_after("18446744073709551615"), Some(u64::MAX));
}

#[test]
fn parse_retry_after_rejects_other_formats() {
    assert_eq!(parse_retry_after(""), None);
    assert_eq!(parse_retry_after("+"), None);
    assert_eq!(parse_retry_after("-1"), None);
    assert_eq!(parse_retry_after("3.5"), None);
    assert_eq!(parse_retry_after(" 3"), None);
    assert_eq!(parse_retry_after("3 "), None);
    assert_eq!(parse_retry_after("not-a-number"), None);
    assert_eq!(parse_retry_after("Wed, 21 Oct 2015 07:28:00 GMT"), None);
    // one past u64::MAX
    assert_eq!(parse_retry_after("18446744073709551616"), None);
}

#[test]
fn secs_to_ms_saturates() {
    assert_eq!(secs_to_ms(3), 3000);
    assert_eq!(secs_to_ms(0), 0);
    assert_eq!(secs_to_ms(u64::MAX), u64::MAX);
}
