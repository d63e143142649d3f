use website_checker::config::{
    parse_args, parse_header_assertion, ConfigError, Flag, Invocation, Options,
};

fn args(items: &[&str]) -> Vec<String> {
    let mut all = vec!["checker".to_string()];
    all.extend(items.iter().map(|s| s.to_string()));
    all
}

fn options(items: &[&str]) -> Options {
    match parse_args(&args(items), 4) {
        Ok(Invocation::Run(options)) => options,
        other => panic!("expected options, got {:?}", other),
    }
}

fn error(items: &[&str]) -> ConfigError {
    match parse_args(&args(items), 4) {
        Err(error) => error,
        other => panic!("expected an error, got {:?}", other),
    }
}

#[test]
fn defaults() {
    let o = options(&["http://a.test"]);
    assert_eq!(o.urls, vec!["http://a.test"]);
    assert_eq!(o.file_path, None);
    assert_eq!(o.workers, 4);
    assert_eq!(o.policy.timeout_seconds, 5);
    assert_eq!(o.policy.retries, 0);
    assert!(o.policy.header_assertion.is_none());
    assert_eq!(o.period_seconds, None);
}

#[test]
fn no_argument_at_all_gives_the_defaults_without_urls() {
    let o = options(&[]);
    assert!(o.urls.is_empty());
    match parse_args(&Vec::new(), 9) {
        Ok(Invocation::Run(o)) => {
            assert!(o.urls.is_empty());
            assert_eq!(o.workers, 9);
        }
        other => panic!("expected options, got {:?}", other),
    }
}

#[test]
fn every_option_is_read() {
    let o = options(&[
        "http://a.test",
        "--file",
        "urls.txt",
        "--workers",
        "8",
        "--timeout",
        "30",
        "http://b.test",
        "--retries",
        "2",
        "--period",
        "60",
        "--assert-header",
        "Content-Type: text/html; charset=utf-8",
    ]);
    assert_eq!(o.urls, vec!["http://a.test", "http://b.test"]);
    assert_eq!(o.file_path.as_deref(), Some("urls.txt"));
    assert_eq!(o.workers, 8);
    assert_eq!(o.policy.timeout_seconds, 30);
    assert_eq!(o.policy.retries, 2);
    assert_eq!(o.period_seconds, Some(60));
    let assertion = o.policy.header_assertion.expect("an assertion was given");
    assert_eq!(assertion.name, "content-type");
    assert_eq!(assertion.value, "text/html; charset=utf-8");
}

#[test]
fn a_later_option_replaces_an_earlier_one() {
    let o = options(&["--retries", "1", "--retries", "3", "--file", "a", "--file", "b"]);
    assert_eq!(o.policy.retries, 3);
    assert_eq!(o.file_path.as_deref(), Some("b"));
}

#[test]
fn an_option_takes_the_next_argument_whatever_it_is() {
    let o = options(&["--file", "--workers", "http://a.test"]);
    assert_eq!(o.file_path.as_deref(), Some("--workers"));
    assert_eq!(o.urls, vec!["http://a.test"]);
}

#[test]
fn help_is_recognised() {
    assert!(matches!(parse_args(&args(&["-h"]), 1), Ok(Invocation::Help)));
    assert!(matches!(parse_args(&args(&["http://a.test", "--help", "--bogus"]), 1), Ok(Invocation::Help)));
}

#[test]
fn an_error_before_help_wins() {
    assert!(matches!(error(&["--bogus", "--help"]), ConfigError::UnknownOption(_)));
}

#[test]
fn missing_values() {
    for (flag, name, text) in [
        (Flag::File, "--file", "--file requires an argument"),
        (Flag::Workers, "--workers", "--workers requires an argument"),
        (Flag::Timeout, "--timeout", "--timeout requires an argument"),
        (Flag::Retries, "--retries", "--retries requires an argument"),
        (Flag::Period, "--period", "--period requires an argument"),
        (
            Flag::AssertHeader,
            "--assert-header",
            "--assert-header requires an argument in 'Name: Value' format",
        ),
    ] {
        let e = error(&["http://a.test", name]);
        assert!(matches!(e, ConfigError::MissingArgument(f) if f == flag));
        assert_eq!(e.message(), text);
    }
}

#[test]
fn invalid_numbers() {
    let e = error(&["--workers", "many"]);
    assert!(matches!(e, ConfigError::InvalidNumber(Flag::Workers, ref t) if t == "many"));
    assert_eq!(e.message(), "Invalid number for --workers: many");
    assert_eq!(error(&["--timeout", "-3"]).message(), "Invalid number for --timeout: -3");
    assert_eq!(error(&["--retries", "4294967296"]).message(), "Invalid number for --retries: 4294967296");
    assert_eq!(error(&["--period", ""]).message(), "Invalid number for --period: ");
    assert_eq!(options(&["--retries", "4294967295"]).policy.retries, u32::MAX);
}

#[test]
fn values_below_the_minimum() {
    let e = error(&["--workers", "0"]);
    assert!(matches!(e, ConfigError::BelowMinimum(Flag::Workers)));
    assert_eq!(e.message(), "--workers must be at least 1");
    assert_eq!(error(&["--timeout", "0"]).message(), "--timeout must be at least 1 second");
    assert_eq!(error(&["--period", "0"]).message(), "--period must be at least 1 second");
    assert_eq!(options(&["--retries", "0"]).policy.retries, 0);
}

#[test]
fn unknown_options() {
    let e = error(&["http://a.test", "--verbose"]);
    assert!(matches!(e, ConfigError::UnknownOption(ref t) if t == "--verbose"));
    assert_eq!(e.message(), "Unknown option: --verbose");
    assert_eq!(error(&["--"]).message(), "Unknown option: --");
    assert_eq!(options(&["-x", "-"]).urls, vec!["-x", "-"]);
}

#[test]
fn the_first_error_is_reported() {
    assert_eq!(error(&["--workers", "0", "--bogus"]).message(), "--workers must be at least 1");
    assert_eq!(
        error(&["--assert-header", "nocolon", "--bogus"]).message(),
        "Unknown option: --bogus"
    );
}

#[test]
fn header_assertion_is_split_at_the_first_colon() {
    let a = parse_header_assertion("X-Time: 12:30:00").expect("well formed");
    assert_eq!(a.name, "x-time");
    assert_eq!(a.value, "12:30:00");
    let a = parse_header_assertion("  Content-Type :text/HTML  ").expect("well formed");
    assert_eq!(a.name, "content-type");
    assert_eq!(a.value, "text/HTML");
}

#[test]
fn header_assertion_errors() {
    let e = parse_header_assertion("Content-Type").expect_err("no colon");
    assert!(matches!(e, ConfigError::AssertionWithoutColon));
    assert_eq!(e.message(), "Invalid format for --assert-header. Use 'Header-Name: Expected Value'");
    assert!(matches!(parse_header_assertion(""), Err(ConfigError::AssertionWithoutColon)));
    for text in [":", "Name:", ": value", "  :  ", "Name:   "] {
        let e = parse_header_assertion(text).expect_err("an empty part");
        assert!(matches!(e, ConfigError::AssertionPartEmpty));
        assert_eq!(
            e.message(),
            "Invalid format for --assert-header: Name and Value cannot be empty. Use 'Header-Name: Expected Value'"
        );
    }
    assert_eq!(
        error(&["--assert-header", "Name:"]).message(),
        "Invalid format for --assert-header: Name and Value cannot be empty. Use 'Header-Name: Expected Value'"
    );
}
