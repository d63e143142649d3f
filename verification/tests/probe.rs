use reqwest::header::{HeaderMap, HeaderName, HeaderValue};
use website_checker::headers::HeaderField;
use website_checker::policy::{CheckPolicy, HeaderAssertion};
use website_checker::probe::{evaluate, evaluate_response, find_header, judge_header};
use website_checker::result::Outcome;

fn policy_asserting(name: &str, value: &str) -> CheckPolicy {
    CheckPolicy {
        timeout_seconds: 5,
        retries: 0,
        header_assertion: Some(HeaderAssertion { name: name.to_string(), value: value.to_string() }),
    }
}

fn plain_policy() -> CheckPolicy {
    CheckPolicy { timeout_seconds: 5, retries: 0, header_assertion: None }
}

fn message_of(outcome: Outcome) -> String {
    match outcome {
        Outcome::Failure(message) => message,
        Outcome::Success(code) => panic!("expected a failure, got status {}", code),
    }
}

fn code_of(outcome: Outcome) -> u16 {
    match outcome {
        Outcome::Success(code) => code,
        Outcome::Failure(message) => panic!("expected a success, got {}", message),
    }
}

fn text_field(name: &str, value: &str) -> HeaderField {
    HeaderField {
        name: name.to_string(),
        text: Some(value.to_string()),
        raw: format!("{:?}", value),
    }
}

#[test]
fn without_assertion_any_status_is_a_success() {
    let headers = HeaderMap::new();
    assert_eq!(code_of(evaluate_response(200, &headers, &plain_policy())), 200);
    assert_eq!(code_of(evaluate_response(404, &headers, &plain_policy())), 404);
    assert_eq!(code_of(evaluate_response(500, &headers, &plain_policy())), 500);
}

#[test]
fn met_assertion_is_a_success_with_the_status() {
    let mut headers = HeaderMap::new();
    headers.insert(HeaderName::from_static("server"), HeaderValue::from_static("nginx"));
    headers.insert(HeaderName::from_static("content-type"), HeaderValue::from_static("text/html"));
    let outcome = evaluate_response(204, &headers, &policy_asserting("content-type", "text/html"));
    assert_eq!(code_of(outcome), 204);
}

#[test]
fn mismatch_reports_expected_and_actual_despite_status_200() {
    let mut headers = HeaderMap::new();
    headers.insert(
        HeaderName::from_static("content-type"),
        HeaderValue::from_static("application/json"),
    );
    let outcome = evaluate_response(200, &headers, &policy_asserting("content-type", "text/html"));
    let message = message_of(outcome);
    assert_eq!(
        message,
        "header 'content-type' assertion failed: expected 'text/html', got 'application/json'"
    );
    assert!(message.contains("text/html"));
    assert!(message.contains("application/json"));
}

#[test]
fn value_is_compared_with_regard_to_case() {
    let mut headers = HeaderMap::new();
    headers.insert(HeaderName::from_static("content-type"), HeaderValue::from_static("Text/HTML"));
    let outcome = evaluate_response(200, &headers, &policy_asserting("content-type", "text/html"));
    assert_eq!(
        message_of(outcome),
        "header 'content-type' assertion failed: expected 'text/html', got 'Text/HTML'"
    );
}

#[test]
fn missing_header_is_reported() {
    let mut headers = HeaderMap::new();
    headers.insert(HeaderName::from_static("server"), HeaderValue::from_static("nginx"));
    let outcome = evaluate_response(200, &headers, &policy_asserting("x-frame-options", "DENY"));
    assert_eq!(message_of(outcome), "header 'x-frame-options' not found");
}

#[test]
fn value_that_is_not_text_is_reported_with_its_rendering() {
    let mut headers = HeaderMap::new();
    headers.insert(
        HeaderName::from_static("x-raw"),
        HeaderValue::from_bytes(&[0x61, 0xff]).unwrap(),
    );
    let outcome = evaluate_response(200, &headers, &policy_asserting("x-raw", "a"));
    assert_eq!(
        message_of(outcome),
        "header 'x-raw' actual value not valid text: \"a\\xff\""
    );
}

#[test]
fn first_value_of_a_repeated_header_decides() {
    let mut headers = HeaderMap::new();
    headers.append(HeaderName::from_static("set-cookie"), HeaderValue::from_static("a=1"));
    headers.append(HeaderName::from_static("set-cookie"), HeaderValue::from_static("b=2"));
    assert_eq!(code_of(evaluate_response(200, &headers, &policy_asserting("set-cookie", "a=1"))), 200);
    assert_eq!(
        message_of(evaluate_response(200, &headers, &policy_asserting("set-cookie", "b=2"))),
        "header 'set-cookie' assertion failed: expected 'b=2', got 'a=1'"
    );
}

#[test]
fn header_names_are_matched_in_lower_case() {
    let fields = vec![text_field("Server", "nginx"), text_field("Content-Type", "text/html")];
    let found = find_header(&fields, "content-type").expect("the header is there");
    assert_eq!(found.name, "Content-Type");
    assert!(find_header(&fields, "Content-Type").is_none());
    assert_eq!(code_of(evaluate(200, &fields, &policy_asserting("content-type", "text/html"))), 200);
}

#[test]
fn find_header_takes_the_first_of_several() {
    let fields = vec![text_field("a", "1"), text_field("b", "2"), text_field("B", "3")];
    let found = find_header(&fields, "b").expect("the header is there");
    assert_eq!(found.text.as_deref(), Some("2"));
    assert!(find_header(&fields, "c").is_none());
    assert!(find_header(&Vec::new(), "a").is_none());
}

#[test]
fn judge_header_covers_the_four_cases() {
    let assertion = HeaderAssertion { name: "etag".to_string(), value: "abc".to_string() };
    assert_eq!(message_of(judge_header(200, &assertion, None)), "header 'etag' not found");
    let binary = HeaderField { name: "etag".to_string(), text: None, raw: "\"\\x80\"".to_string() };
    assert_eq!(
        message_of(judge_header(200, &assertion, Some(&binary))),
        "header 'etag' actual value not valid text: \"\\x80\""
    );
    let other = text_field("etag", "abd");
    assert_eq!(
        message_of(judge_header(200, &assertion, Some(&other))),
        "header 'etag' assertion failed: expected 'abc', got 'abd'"
    );
    let same = text_field("etag", "abc");
    assert_eq!(code_of(judge_header(301, &assertion, Some(&same))), 301);
}

#[test]
fn assertion_written_in_any_case_finds_the_header() {
    let assertion = website_checker::config::parse_header_assertion("Content-TYPE: text/html")
        .expect("well formed");
    let policy = CheckPolicy { timeout_seconds: 5, retries: 0, header_assertion: Some(assertion) };
    let mut headers = HeaderMap::new();
    headers.insert(HeaderName::from_static("content-type"), HeaderValue::from_static("text/html"));
    assert_eq!(code_of(evaluate_response(200, &headers, &policy)), 200);
}
