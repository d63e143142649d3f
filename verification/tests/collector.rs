use website_checker::collector::Collector;
use website_checker::result::{CheckResult, Outcome};

fn success(url: &str, elapsed_nanos: u64) -> CheckResult {
    CheckResult { url: url.to_string(), outcome: Outcome::Success(200), elapsed_nanos, completed_at: 1 }
}

fn failure(url: &str) -> CheckResult {
    CheckResult {
        url: url.to_string(),
        outcome: Outcome::Failure("timeout".to_string()),
        elapsed_nanos: 9,
        completed_at: 2,
    }
}

#[test]
fn new_collector_has_received_nothing() {
    let collector = Collector::new(3);
    assert_eq!(collector.expected(), 3);
    assert_eq!(collector.received(), 0);
    assert!(!collector.is_complete());
    assert!(collector.results().is_empty());
    assert_eq!(collector.stats().successes(), 0);
    assert_eq!(collector.stats().failures(), 0);
}

#[test]
fn collector_for_no_job_is_complete() {
    assert!(Collector::new(0).is_complete());
}

#[test]
fn results_are_kept_in_the_order_of_their_arrival() {
    let collector = Collector::new(3)
        .accept(success("http://c.test", 30))
        .accept(failure("http://a.test"))
        .accept(success("http://b.test", 10));
    assert!(collector.is_complete());
    let urls: Vec<&str> = collector.results().iter().map(|r| r.url.as_str()).collect();
    assert_eq!(urls, vec!["http://c.test", "http://a.test", "http://b.test"]);
}

#[test]
fn successes_and_failures_add_up_to_the_jobs() {
    let mut collector = Collector::new(5);
    let arrivals = vec![
        success("u1", 5),
        failure("u2"),
        failure("u3"),
        success("u4", 1),
        failure("u5"),
    ];
    for result in arrivals {
        assert!(!collector.is_complete());
        collector = collector.accept(result);
        let stats = collector.stats();
        assert_eq!(stats.successes() + stats.failures(), collector.received() as u64);
    }
    assert!(collector.is_complete());
    assert_eq!(collector.stats().successes(), 2);
    assert_eq!(collector.stats().failures(), 3);
    assert_eq!(
        collector.stats().successes() + collector.stats().failures(),
        collector.expected() as u64
    );
    assert_eq!(collector.stats().min_nanos(), Some(1));
    assert_eq!(collector.stats().max_nanos(), Some(5));
}

#[test]
fn a_round_cut_short_keeps_what_arrived() {
    let collector = Collector::new(4).accept(success("u1", 7));
    assert!(!collector.is_complete());
    assert_eq!(collector.received(), 1);
    let (results, stats) = collector.finish();
    assert_eq!(results.len(), 1);
    assert_eq!(results[0].url, "u1");
    assert_eq!(stats.successes(), 1);
    assert_eq!(stats.failures(), 0);
}
