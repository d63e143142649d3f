use website_checker::collector::Collector;
use website_checker::policy::CheckPolicy;
use website_checker::queue::JobQueue;
use website_checker::result::Outcome;
use website_checker::retry::{Attempt, Next, RetryLoop, Verdict};
use website_checker::targets::{add_file_lines, assemble_targets, clean_line, dedup_urls};

fn strings(items: &[&str]) -> Vec<String> {
    items.iter().map(|s| s.to_string()).collect()
}

#[test]
fn dedup_keeps_first_occurrences_in_order() {
    let urls = strings(&["http://b.test", "http://a.test", "http://b.test", "http://c.test", "http://a.test"]);
    assert_eq!(dedup_urls(&urls), strings(&["http://b.test", "http://a.test", "http://c.test"]));
}

#[test]
fn dedup_compares_urls_as_they_are_written() {
    let urls = strings(&[
        "http://a.test",
        "http://a.test/",
        "HTTP://A.TEST",
        "http://a.test ",
        "http://a.test",
    ]);
    assert_eq!(
        dedup_urls(&urls),
        strings(&["http://a.test", "http://a.test/", "HTTP://A.TEST", "http://a.test "])
    );
}

#[test]
fn dedup_of_distinct_urls_changes_nothing() {
    let urls = strings(&["x", "y", "z"]);
    assert_eq!(dedup_urls(&urls), urls);
    assert_eq!(dedup_urls(&Vec::new()), Vec::<String>::new());
    assert_eq!(dedup_urls(&strings(&["x", "x", "x"])), strings(&["x"]));
}

#[test]
fn clean_line_trims_and_strips_comments() {
    assert_eq!(clean_line("http://a.test").as_deref(), Some("http://a.test"));
    assert_eq!(clean_line("  http://a.test \t").as_deref(), Some("http://a.test"));
    assert_eq!(clean_line("http://a.test # the main site").as_deref(), Some("http://a.test"));
    assert_eq!(clean_line("http://a.test#frag # x").as_deref(), Some("http://a.test"));
    assert_eq!(clean_line("\u{a0}http://a.test\u{2003}").as_deref(), Some("http://a.test"));
    assert_eq!(clean_line("http://a.test/x y").as_deref(), Some("http://a.test/x y"));
}

#[test]
fn clean_line_drops_blank_lines_and_comments() {
    assert_eq!(clean_line(""), None);
    assert_eq!(clean_line("   \t "), None);
    assert_eq!(clean_line("# a comment"), None);
    assert_eq!(clean_line("   # an indented comment"), None);
    assert_eq!(clean_line("#"), None);
}

#[test]
fn file_lines_follow_the_urls_that_were_given() {
    let mut urls = strings(&["http://first.test"]);
    let lines = strings(&["# list", "", "http://a.test", "  http://b.test  # b", "   "]);
    add_file_lines(&mut urls, &lines);
    assert_eq!(urls, strings(&["http://first.test", "http://a.test", "http://b.test"]));
}

#[test]
fn targets_are_arguments_then_file_without_repetitions() {
    let urls = strings(&["http://a.test", "http://b.test"]);
    let lines = strings(&["http://b.test", "http://c.test # new", "http://a.test"]);
    assert_eq!(
        assemble_targets(urls, &lines),
        Some(strings(&["http://a.test", "http://b.test", "http://c.test"]))
    );
}

#[test]
fn no_url_at_all_gives_no_targets() {
    assert_eq!(assemble_targets(Vec::new(), &Vec::new()), None);
    assert_eq!(assemble_targets(Vec::new(), &strings(&["# only a comment", "  "])), None);
}

#[test]
fn scenario_two_urls_one_answers_one_times_out() {
    let input = strings(&["http://ok.test", "http://ok.test", "http://fail.test"]);
    let targets = assemble_targets(input, &Vec::new()).expect("there are URLs");
    assert_eq!(targets, strings(&["http://ok.test", "http://fail.test"]));

    let policy = CheckPolicy { timeout_seconds: 5, retries: 1, header_assertion: None };
    let mut queue = JobQueue::from_targets(&targets);
    let mut collector = Collector::new(targets.len());
    let mut attempts_on_fail = 0;
    while let Some(url) = queue.pop() {
        let mut job = RetryLoop::start(url, &policy);
        let result = loop {
            let verdict = if job.url() == "http://ok.test" {
                Verdict::Terminal(Outcome::Success(200))
            } else {
                attempts_on_fail += 1;
                Verdict::from_transport_error("operation timed out".to_string())
            };
            let attempt = Attempt { verdict, elapsed_nanos: 1_000_000, completed_at: 1_700_000_000 };
            match job.on_attempt(attempt) {
                Next::Deliver(result) => break result,
                Next::Retry { job: next, .. } => job = next,
            }
        };
        collector = collector.accept(result);
    }
    assert_eq!(attempts_on_fail, 2);
    assert!(collector.is_complete());
    let results = collector.results();
    assert_eq!(results.len(), 2);
    assert!(matches!(results[0].outcome, Outcome::Success(200)));
    assert!(matches!(results[1].outcome, Outcome::Failure(ref m) if m.contains("timed out")));
    assert_eq!(collector.stats().successes(), 1);
    assert_eq!(collector.stats().failures(), 1);
}

#[test]
fn empty_arguments_are_no_urls() {
    assert_eq!(assemble_targets(strings(&[""]), &Vec::new()), None);
    assert_eq!(assemble_targets(strings(&["", ""]), &strings(&["  # nothing"])), None);
    assert_eq!(
        assemble_targets(strings(&["", "http://a.test", "", "http://b.test"]), &strings(&["http://c.test"])),
        Some(strings(&["http://a.test", "http://b.test", "http://c.test"]))
    );
    assert_eq!(assemble_targets(strings(&[" "]), &Vec::new()), Some(strings(&[" "])));
}

#[test]
fn no_target_is_empty() {
    let targets = assemble_targets(
        strings(&["", "http://a.test", ""]),
        &strings(&["", "#", "http://b.test", "   "]),
    )
    .expect("there are URLs");
    assert!(!targets.is_empty());
    assert!(targets.iter().all(|url| !url.is_empty()));
}
