use reqwest::header::{HeaderMap, HeaderName, HeaderValue};
use website_checker::policy::{CheckPolicy, HeaderAssertion};
use website_checker::result::{CheckResult, Outcome};
use website_checker::retry::{Attempt, Next, RetryLoop, Verdict, BACKOFF_MILLIS};

fn policy(retries: u32) -> CheckPolicy {
    CheckPolicy { timeout_seconds: 5, retries, header_assertion: None }
}

fn transient(message: &str, elapsed_nanos: u64, completed_at: u64) -> Attempt {
    Attempt { verdict: Verdict::Retryable(message.to_string()), elapsed_nanos, completed_at }
}

fn terminal(outcome: Outcome, elapsed_nanos: u64, completed_at: u64) -> Attempt {
    Attempt { verdict: Verdict::Terminal(outcome), elapsed_nanos, completed_at }
}

/// Runs a check whose attempts bring `attempts` in turn; returns the result
/// and how many attempts were made.
fn run(url: &str, policy: &CheckPolicy, attempts: Vec<Attempt>) -> (CheckResult, usize) {
    let mut job = RetryLoop::start(url.to_string(), policy);
    let mut made = 0;
    for attempt in attempts {
        made += 1;
        match job.on_attempt(attempt) {
            Next::Deliver(result) => return (result, made),
            Next::Retry { job: next, backoff_millis } => {
                assert_eq!(backoff_millis, 100);
                job = next;
            }
        }
    }
    panic!("the attempts ran out before the check ended");
}

#[test]
fn backoff_is_a_tenth_of_a_second() {
    assert_eq!(BACKOFF_MILLIS, 100);
}

#[test]
fn success_ends_the_check_at_once() {
    let (result, made) = run(
        "http://ok.test",
        &policy(3),
        vec![terminal(Outcome::Success(200), 5, 6), transient("unused", 7, 8)],
    );
    assert_eq!(made, 1);
    assert_eq!(result.url, "http://ok.test");
    assert!(matches!(result.outcome, Outcome::Success(200)));
    assert_eq!(result.elapsed_nanos, 5);
    assert_eq!(result.completed_at, 6);
}

#[test]
fn no_retries_means_one_attempt() {
    let (result, made) = run("http://fail.test", &policy(0), vec![transient("refused", 1, 2)]);
    assert_eq!(made, 1);
    assert!(matches!(result.outcome, Outcome::Failure(ref m) if m == "refused"));
}

#[test]
fn transient_failures_use_every_attempt() {
    for retries in [0u32, 1, 2, 5] {
        let attempts: Vec<Attempt> = (0..retries as u64 + 3)
            .map(|i| transient(&format!("timeout {}", i), 10 + i, 100 + i))
            .collect();
        let (result, made) = run("http://fail.test", &policy(retries), attempts);
        assert_eq!(made, retries as usize + 1);
        let last = retries as u64;
        assert!(
            matches!(result.outcome, Outcome::Failure(ref m) if *m == format!("timeout {}", last))
        );
        assert_eq!(result.elapsed_nanos, 10 + last);
        assert_eq!(result.completed_at, 100 + last);
    }
}

#[test]
fn success_after_failures_stops_the_retries() {
    let (result, made) = run(
        "http://flaky.test",
        &policy(5),
        vec![
            transient("reset", 1, 11),
            transient("reset", 2, 12),
            terminal(Outcome::Success(503), 3, 13),
            transient("unused", 4, 14),
        ],
    );
    assert_eq!(made, 3);
    assert!(matches!(result.outcome, Outcome::Success(503)));
    assert_eq!(result.elapsed_nanos, 3);
    assert_eq!(result.completed_at, 13);
}

#[test]
fn failed_assertion_is_never_retried() {
    for retries in [0u32, 1, 10, u32::MAX] {
        let job = RetryLoop::start("http://a.test".to_string(), &policy(retries));
        let next = job.on_attempt(terminal(Outcome::Failure("header 'x' not found".to_string()), 9, 8));
        match next {
            Next::Deliver(result) => {
                assert!(
                    matches!(result.outcome, Outcome::Failure(ref m) if m == "header 'x' not found")
                );
                assert_eq!(result.elapsed_nanos, 9);
                assert_eq!(result.completed_at, 8);
            }
            Next::Retry { .. } => panic!("a failed assertion was retried"),
        }
    }
}

#[test]
fn attempts_made_counts_the_failed_attempts() {
    let job = RetryLoop::start("http://a.test".to_string(), &policy(2));
    assert_eq!(job.attempts_made(), 0);
    assert_eq!(job.url(), "http://a.test");
    let job = match job.on_attempt(transient("x", 0, 0)) {
        Next::Retry { job, .. } => job,
        Next::Deliver(_) => panic!("ended early"),
    };
    assert_eq!(job.attempts_made(), 1);
    let job = match job.on_attempt(transient("x", 0, 0)) {
        Next::Retry { job, .. } => job,
        Next::Deliver(_) => panic!("ended early"),
    };
    assert_eq!(job.attempts_made(), 2);
    assert!(matches!(job.on_attempt(transient("x", 0, 0)), Next::Deliver(_)));
}

#[test]
fn verdict_of_a_response_is_terminal() {
    let mut headers = HeaderMap::new();
    headers.insert(
        HeaderName::from_static("content-type"),
        HeaderValue::from_static("application/json"),
    );
    let asserting = CheckPolicy {
        timeout_seconds: 5,
        retries: 4,
        header_assertion: Some(HeaderAssertion {
            name: "content-type".to_string(),
            value: "text/html".to_string(),
        }),
    };
    let verdict = Verdict::from_response(200, &headers, &asserting);
    assert!(matches!(verdict, Verdict::Terminal(Outcome::Failure(_))));
    let verdict = Verdict::from_response(404, &headers, &policy(4));
    assert!(matches!(verdict, Verdict::Terminal(Outcome::Success(404))));
}

#[test]
fn verdict_of_a_transport_error_is_retryable() {
    let verdict = Verdict::from_transport_error("connection refused".to_string());
    assert!(matches!(verdict, Verdict::Retryable(ref m) if m == "connection refused"));
}
