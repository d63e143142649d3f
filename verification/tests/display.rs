use website_checker::display::{
    byte_len, can_show, can_truncate, display_line, heading_line, rule_line, status_cell,
    truncate_url,
};
use website_checker::result::{CheckResult, Outcome};

#[test]
fn short_urls_are_left_alone() {
    assert_eq!(truncate_url("http://a.test", 28), "http://a.test");
    assert_eq!(truncate_url("", 28), "");
    assert_eq!(truncate_url("1234567890123456789012345678", 28), "1234567890123456789012345678");
}

#[test]
fn long_urls_are_cut_and_get_three_dots() {
    assert_eq!(
        truncate_url("12345678901234567890123456789", 28),
        "1234567890123456789012345..."
    );
    assert_eq!(truncate_url("abcdefgh", 5), "ab...");
    assert_eq!(truncate_url("abcdefgh", 4), "a...");
}

#[test]
fn a_limit_of_three_or_less_cuts_nothing() {
    assert_eq!(truncate_url("abcdefgh", 3), "abcdefgh");
    assert_eq!(truncate_url("abcdefgh", 0), "abcdefgh");
}

#[test]
fn lengths_are_counted_in_bytes() {
    assert_eq!(byte_len("abc"), 3);
    assert_eq!(byte_len("\u{e9}"), 2);
    assert_eq!(byte_len(""), 0);
    assert_eq!(truncate_url("\u{e9}\u{e9}\u{e9}\u{e9}", 7), "\u{e9}\u{e9}...");
    assert_eq!(truncate_url("\u{e9}\u{e9}\u{e9}", 7), "\u{e9}\u{e9}\u{e9}");
}

#[test]
fn status_cell_shows_code_or_shortened_message() {
    assert_eq!(status_cell(&Outcome::Success(200)), "200");
    assert_eq!(status_cell(&Outcome::Failure("timeout".to_string())), "ERR: timeout");
    assert_eq!(
        status_cell(&Outcome::Failure("12345678901234567890".to_string())),
        "ERR: 12345678901234567890"
    );
    assert_eq!(
        status_cell(&Outcome::Failure("123456789012345678901".to_string())),
        "ERR: 12345678901234567..."
    );
}

#[test]
fn line_of_a_success() {
    let result = CheckResult {
        url: "http://ok.test".to_string(),
        outcome: Outcome::Success(200),
        elapsed_nanos: 123_456_789,
        completed_at: 1_700_000_000,
    };
    assert!(can_show(&result));
    assert_eq!(
        display_line(&result),
        "http://ok.test                 | 200      | 123          | 1700000000"
    );
    assert_eq!(
        display_line(&result),
        format!("{:<30} | {:<8} | {:<12} | {}", "http://ok.test", "200", 123, 1_700_000_000u64)
    );
}

#[test]
fn line_of_a_failure_with_long_url_and_message() {
    let result = CheckResult {
        url: "http://a-very-long-host-name.example.test/path".to_string(),
        outcome: Outcome::Failure("error sending request for url".to_string()),
        elapsed_nanos: 5_000_000_000,
        completed_at: 5,
    };
    assert!(can_show(&result));
    assert_eq!(
        display_line(&result),
        "http://a-very-long-host-n...   | ERR: error sending req... | 5000         | 5"
    );
}

#[test]
fn a_cut_inside_a_character_cannot_be_shown() {
    let url = format!("{}\u{e9}{}", "a".repeat(24), "b".repeat(10));
    let result = CheckResult { url, outcome: Outcome::Success(200), elapsed_nanos: 0, completed_at: 0 };
    assert!(!can_show(&result));
    let message = format!("{}\u{e9}{}", "a".repeat(16), "b".repeat(10));
    let result = CheckResult {
        url: "u".to_string(),
        outcome: Outcome::Failure(message),
        elapsed_nanos: 0,
        completed_at: 0,
    };
    assert!(!can_show(&result));
    let message = format!("{}\u{e9}{}", "a".repeat(15), "b".repeat(10));
    let result = CheckResult {
        url: "u".to_string(),
        outcome: Outcome::Failure(message),
        elapsed_nanos: 0,
        completed_at: 0,
    };
    assert!(can_show(&result));
    assert_eq!(
        display_line(&result),
        format!("{:<30} | {:<8} | {:<12} | {}", "u", format!("ERR: {}\u{e9}...", "a".repeat(15)), 0, 0)
    );
}

#[test]
fn columns_are_padded_by_characters() {
    let result = CheckResult {
        url: "http://caf\u{e9}.test".to_string(),
        outcome: Outcome::Failure("\u{e9}".to_string()),
        elapsed_nanos: 1_999_999,
        completed_at: 12,
    };
    assert!(can_show(&result));
    assert_eq!(
        display_line(&result),
        format!("{:<30} | {:<8} | {:<12} | {}", "http://caf\u{e9}.test", "ERR: \u{e9}", 1, 12)
    );
}

#[test]
fn heading_and_rule() {
    assert_eq!(
        heading_line(),
        "URL                            | Status   | Time (ms)    | Timestamp (EpochS)"
    );
    assert_eq!(rule_line(), "-".repeat(75));
}

#[test]
fn a_cut_is_clean_between_characters_only() {
    assert!(can_truncate("abcdefgh", 5));
    assert!(can_truncate("a\u{e9}cdefgh", 6));
    assert!(!can_truncate("a\u{e9}cdefgh", 5));
    assert!(can_truncate("a\u{e9}", 5));
    assert!(can_truncate("\u{e9}\u{e9}\u{e9}\u{e9}", 3));
    assert!(can_truncate("", 0));
}
