use vstd::prelude::*;
use crate::result::{CheckResult, CheckResultView, Outcome, OutcomeView};
use crate::number::{
    digits_value, hundredths_written, lemma_digits_value_decimal, lemma_two_decimals_written,
};
use crate::text::{decimal, push_decimal, push_two_decimals, texts, two_decimals};

verus! {

/// The statistics of a round as mathematical values; times are in nanoseconds.
pub struct Tally {
    pub successes: nat,
    pub failures: nat,
    /// The shortest elapsed time among the successes; `None` while there is none.
    pub fastest: Option<nat>,
    /// The longest elapsed time among the successes; `None` while there is none.
    pub slowest: Option<nat>,
    /// The sum of the elapsed times of the successes.
    pub total: nat,
}

impl Tally {
    /// The tally of a round in which nothing has been received yet.
    pub open spec fn empty() -> Tally {
        Tally { successes: 0, failures: 0, fastest: None, slowest: None, total: 0 }
    }

    /// The tally after one more result has been received.
    pub open spec fn record(self, result: CheckResultView) -> Tally {
        let elapsed = result.elapsed_nanos as nat;
        match result.outcome {
            OutcomeView::Success(_) => Tally {
                successes: self.successes + 1,
                failures: self.failures,
                fastest: match self.fastest {
                    Some(least) if least <= elapsed => Some(least),
                    _ => Some(elapsed),
                },
                slowest: match self.slowest {
                    Some(greatest) if greatest >= elapsed => Some(greatest),
                    _ => Some(elapsed),
                },
                total: self.total + elapsed,
            },
            OutcomeView::Failure(_) => Tally { failures: self.failures + 1, ..self },
        }
    }

    /// How many results have been received.
    pub open spec fn attempted(self) -> nat {
        self.successes + self.failures
    }

    /// The average elapsed time of the successes, rounded down; `None` while
    /// there is no success.
    pub open spec fn average(self) -> Option<nat> {
        if self.successes == 0 {
            None
        } else {
            Some(self.total / self.successes)
        }
    }

    /// What holds of every tally that was built from `empty` by `record`: the
    /// extremes exist exactly when there is a success, and the total lies
    /// between as many times the least and as many times the greatest.
    pub open spec fn consistent(self) -> bool {
        if self.successes == 0 {
            self.fastest is None && self.slowest is None && self.total == 0
        } else {
            &&& self.fastest is Some
            &&& self.slowest is Some
            &&& self.fastest->0 <= self.slowest->0
            &&& self.slowest->0 <= u64::MAX
            &&& self.successes * self.fastest->0 <= self.total
            &&& self.total <= self.successes * self.slowest->0
        }
    }
}

/// The elapsed times of the successes among `results`, in their order.
pub open spec fn success_times(results: Seq<CheckResultView>) -> Seq<nat> {
    results.filter(|r: CheckResultView| r.outcome is Success).map_values(
        |r: CheckResultView| r.elapsed_nanos as nat,
    )
}

/// The sum of a sequence of times.
pub open spec fn sum_of(times: Seq<nat>) -> nat
    decreases times.len(),
{
    if times.len() == 0 {
        0
    } else {
        sum_of(times.drop_last()) + times.last()
    }
}

/// True when `least` occurs in `times` and nothing in `times` is below it.
pub open spec fn is_least_of(least: nat, times: Seq<nat>) -> bool {
    &&& times.contains(least)
    &&& forall|i: int| 0 <= i < times.len() ==> least <= #[trigger] times[i]
}

/// True when `greatest` occurs in `times` and nothing in `times` is above it.
pub open spec fn is_greatest_of(greatest: nat, times: Seq<nat>) -> bool {
    &&& times.contains(greatest)
    &&& forall|i: int| 0 <= i < times.len() ==> greatest >= #[trigger] times[i]
}

/// True when `tally` is the statistics of `results`: the counts of successes
/// and failures, and over the elapsed times of the successes their least,
/// their greatest and their sum.
pub open spec fn is_tally_of(tally: Tally, results: Seq<CheckResultView>) -> bool {
    let times = success_times(results);
    &&& tally.successes == times.len()
    &&& tally.failures == results.len() - times.len()
    &&& tally.total == sum_of(times)
    &&& times.len() == 0 ==> tally.fastest is None && tally.slowest is None
    &&& times.len() > 0 ==> tally.fastest is Some && is_least_of(tally.fastest->0, times)
    &&& times.len() > 0 ==> tally.slowest is Some && is_greatest_of(tally.slowest->0, times)
}

/// The tally that `record` builds from the results one after the other.
pub open spec fn tally_of(results: Seq<CheckResultView>) -> Tally
    decreases results.len(),
{
    if results.len() == 0 {
        Tally::empty()
    } else {
        tally_of(results.drop_last()).record(results.last())
    }
}

/// The successes of a round extended by one result: a success adds its
/// elapsed time at the end, a failure adds nothing.
pub proof fn lemma_success_times_push(results: Seq<CheckResultView>, result: CheckResultView)
    ensures
        success_times(results.push(result)) == if result.outcome is Success {
            success_times(results).push(result.elapsed_nanos as nat)
        } else {
            success_times(results)
        },
{
    let succeeded = |r: CheckResultView| r.outcome is Success;
    let extended = results.push(result);
    assert(extended.drop_last() == results);
    assert(extended.last() == result);
    assert(extended.filter(succeeded) == if succeeded(result) {
        results.filter(succeeded).push(result)
    } else {
        results.filter(succeeded)
    }) by {
        reveal_with_fuel(Seq::filter, 2);
    }
    if result.outcome is Success {
        assert(success_times(extended) =~= success_times(results).push(
            result.elapsed_nanos as nat,
        ));
    }
}

/// Recording one more result turns the statistics of a round into the
/// statistics of the round extended by that result.
pub proof fn lemma_record_extends(
    tally: Tally,
    results: Seq<CheckResultView>,
    result: CheckResultView,
)
    requires
        is_tally_of(tally, results),
    ensures
        is_tally_of(tally.record(result), results.push(result)),
{
    lemma_success_times_push(results, result);
    let before = success_times(results);
    let after = success_times(results.push(result));
    let next = tally.record(result);
    if result.outcome is Success {
        let elapsed = result.elapsed_nanos as nat;
        assert(after.drop_last() == before);
        assert(after.last() == elapsed);
        assert(forall|i: int| 0 <= i < before.len() ==> before[i] == after[i]);
        assert(after[before.len() as int] == elapsed);
        if before.len() > 0 {
            let least = tally.fastest->0;
            let i = choose|i: int| 0 <= i < before.len() && before[i] == least;
            assert(after[i] == least);
            let greatest = tally.slowest->0;
            let j = choose|j: int| 0 <= j < before.len() && before[j] == greatest;
            assert(after[j] == greatest);
        }
        assert(after.contains(next.fastest->0));
        assert(after.contains(next.slowest->0));
    }
}

/// The tally built by recording the results one after the other is the
/// statistics of those results.
pub proof fn lemma_tally_of_is_tally(results: Seq<CheckResultView>)
    ensures
        is_tally_of(tally_of(results), results),
    decreases results.len(),
{
    if results.len() == 0 {
        assert(success_times(results) =~= Seq::empty());
    } else {
        lemma_tally_of_is_tally(results.drop_last());
        lemma_record_extends(tally_of(results.drop_last()), results.drop_last(), results.last());
        assert(results.drop_last().push(results.last()) == results);
    }
}

/// Every result of a round is counted once: as a success or as a failure.
pub proof fn lemma_tally_counts_every_result(results: Seq<CheckResultView>)
    ensures
        tally_of(results).successes + tally_of(results).failures == results.len(),
{
    lemma_tally_of_is_tally(results);
}

/// Recording keeps a tally consistent.
pub proof fn lemma_record_consistent(tally: Tally, result: CheckResultView)
    requires
        tally.consistent(),
    ensures
        tally.record(result).consistent(),
{
    if result.outcome is Success {
        let elapsed = result.elapsed_nanos as nat;
        let next = tally.record(result);
        if tally.successes > 0 {
            let n = tally.successes;
            let lo = tally.fastest->0;
            let hi = tally.slowest->0;
            let new_lo = next.fastest->0;
            let new_hi = next.slowest->0;
            assert((n + 1) * new_lo <= n * lo + elapsed) by (nonlinear_arith)
                requires
                    new_lo <= lo,
                    new_lo <= elapsed,
            ;
            assert(n * hi + elapsed <= (n + 1) * new_hi) by (nonlinear_arith)
                requires
                    hi <= new_hi,
                    elapsed <= new_hi,
            ;
        } else {
            assert(next.successes * elapsed == elapsed) by (nonlinear_arith)
                requires
                    next.successes == 1,
            ;
        }
    }
}

/// The tally of any sequence of results is consistent.
pub proof fn lemma_tally_of_consistent(results: Seq<CheckResultView>)
    ensures
        tally_of(results).consistent(),
    decreases results.len(),
{
    if results.len() > 0 {
        lemma_tally_of_consistent(results.drop_last());
        lemma_record_consistent(tally_of(results.drop_last()), results.last());
    }
}

/// In a consistent tally with at least one success the average lies between
/// the least and the greatest elapsed time; with none, the three are absent.
pub proof fn lemma_average_between(tally: Tally)
    requires
        tally.consistent(),
    ensures
        tally.successes > 0 ==> tally.fastest is Some && tally.slowest is Some
            && tally.average() is Some && tally.fastest->0 <= tally.average()->0
            <= tally.slowest->0,
        tally.successes == 0 ==> tally.fastest is None && tally.slowest is None
            && tally.average() is None,
{
    if tally.successes > 0 {
        let n = tally.successes as int;
        let lo = tally.fastest->0 as int;
        let hi = tally.slowest->0 as int;
        let total = tally.total as int;
        assert(lo <= total / n && total / n <= hi) by (nonlinear_arith)
            requires
                n > 0,
                n * lo <= total,
                total <= n * hi,
        ;
    }
}

/// Over the successes of any round: the least elapsed time is at most the
/// average, and the average at most the greatest; a round without a success
/// has none of the three.
pub proof fn lemma_round_average_between(results: Seq<CheckResultView>)
    ensures
        tally_of(results).successes > 0 ==> tally_of(results).fastest is Some && tally_of(
            results,
        ).slowest is Some && tally_of(results).average() is Some && tally_of(results).fastest->0
            <= tally_of(results).average()->0 <= tally_of(results).slowest->0,
        tally_of(results).successes == 0 ==> tally_of(results).fastest is None && tally_of(
            results,
        ).slowest is None && tally_of(results).average() is None,
{
    lemma_tally_of_consistent(results);
    lemma_average_between(tally_of(results));
}

/// The whole milliseconds in a time in nanoseconds.
pub open spec fn whole_millis(nanos: nat) -> nat {
    nanos / 1_000_000
}

/// The whole number nearest to `a / n`; where `a / n` lies half way between
/// two whole numbers, the even one.
pub open spec fn nearest(a: nat, n: nat) -> nat
    recommends
        n > 0,
{
    let below = a / n;
    let left = a % n;
    if 2 * left > n || (2 * left == n && below % 2 == 1) {
        below + 1
    } else {
        below
    }
}

/// The mean of the successes in hundredths of a millisecond: the whole
/// milliseconds of the sum, divided by the number of successes and rounded to
/// the nearest hundredth.
pub open spec fn mean_hundredths(total: nat, successes: nat) -> nat
    recommends
        successes > 0,
{
    nearest(whole_millis(total) * 100, successes)
}

/// The average that the summary shows, in hundredths of a millisecond: the
/// mean, but no more than the greatest time as the summary shows it.
pub open spec fn shown_average(total: nat, successes: nat, greatest: nat) -> nat
    recommends
        successes > 0,
{
    let mean = mean_hundredths(total, successes);
    let ceiling = whole_millis(greatest) * 100;
    if mean > ceiling {
        ceiling
    } else {
        mean
    }
}

/// A line of the summary about a time in whole milliseconds.
pub open spec fn millis_line(label: Seq<char>, nanos: nat) -> Seq<char> {
    label + decimal(whole_millis(nanos)) + " ms"@
}

/// The line of the summary about the average, written with two decimals.
pub open spec fn average_line(hundredths: nat) -> Seq<char> {
    "Average Response Time (successful): "@ + two_decimals(hundredths) + " ms"@
}

/// The lines about the elapsed times in the summary of a round. With a
/// success: the least and the greatest in whole milliseconds, and the average
/// with two decimals. Without a success, where anything was attempted: a line
/// that says so.
pub open spec fn summary_times(tally: Tally) -> Seq<Seq<char>> {
    if tally.successes > 0 {
        match (tally.fastest, tally.slowest) {
            (Some(least), Some(greatest)) => seq![
                millis_line("Min Response Time (successful): "@, least),
                millis_line("Max Response Time (successful): "@, greatest),
                average_line(shown_average(tally.total, tally.successes, greatest)),
            ],
            _ => seq![],
        }
    } else if tally.attempted() > 0 {
        seq!["No successful checks to calculate response time statistics."@]
    } else {
        seq![]
    }
}

/// The summary of a round, line by line: a heading, the three counts, the
/// lines about the elapsed times, and a rule; an empty line before and after.
pub open spec fn summary(tally: Tally) -> Seq<Seq<char>> {
    seq![
        ""@,
        "--- Round Summary ---"@,
        "Total URLs Attempted: "@ + decimal(tally.attempted()),
        "Successful Checks: "@ + decimal(tally.successes),
        "Failed Checks: "@ + decimal(tally.failures),
    ] + summary_times(tally) + seq!["---------------------"@, ""@]
}

/// The nearest whole number to a quotient is the quotient rounded down, or
/// one more.
pub proof fn lemma_nearest(a: nat, n: nat)
    requires
        n > 0,
    ensures
        a / n <= nearest(a, n) <= a / n + 1,
        a % n == 0 ==> nearest(a, n) == a / n,
{
}

/// The mean of times is at least the least of them, in the figures that the
/// summary shows: where every one of `successes` times is at least `least` and
/// `total` is their sum, the mean in hundredths is at least a hundred times
/// the whole milliseconds of `least`.
pub proof fn lemma_mean_at_least(total: nat, successes: nat, least: nat)
    requires
        successes > 0,
        successes * least <= total,
    ensures
        whole_millis(least) * 100 <= mean_hundredths(total, successes),
{
    let n = successes as int;
    let lo = whole_millis(least) as int;
    let sum = whole_millis(total) as int;
    assert(n * lo <= sum) by (nonlinear_arith)
        requires
            n > 0,
            n * least <= total,
            lo == least / 1_000_000,
            sum == total / 1_000_000,
    ;
    assert(lo * 100 <= (sum * 100) / n) by (nonlinear_arith)
        requires
            n > 0,
            n * lo <= sum,
    ;
    lemma_nearest((sum * 100) as nat, successes);
}

/// The summary of a round with a success shows the least, the greatest and
/// the average elapsed time, whatever their sum, and the average that it
/// shows lies between the least and the greatest that it shows. The average
/// shown is the mean wherever the mean is no more than the greatest shown.
/// Each of the three is written so that it reads as the figure shown.
pub proof fn lemma_summary_shows_ordered_times(tally: Tally)
    requires
        tally.consistent(),
        tally.successes > 0,
    ensures
        tally.fastest is Some && tally.slowest is Some,
        summary_times(tally) == seq![
            millis_line("Min Response Time (successful): "@, tally.fastest->0),
            millis_line("Max Response Time (successful): "@, tally.slowest->0),
            average_line(shown_average(tally.total, tally.successes, tally.slowest->0)),
        ],
        whole_millis(tally.fastest->0) * 100 <= shown_average(
            tally.total,
            tally.successes,
            tally.slowest->0,
        ) <= whole_millis(tally.slowest->0) * 100,
        mean_hundredths(tally.total, tally.successes) <= whole_millis(tally.slowest->0) * 100
            ==> shown_average(tally.total, tally.successes, tally.slowest->0) == mean_hundredths(
            tally.total,
            tally.successes,
        ),
        digits_value(decimal(whole_millis(tally.fastest->0))) == whole_millis(tally.fastest->0),
        digits_value(decimal(whole_millis(tally.slowest->0))) == whole_millis(tally.slowest->0),
        hundredths_written(
            two_decimals(shown_average(tally.total, tally.successes, tally.slowest->0)),
        ) == shown_average(tally.total, tally.successes, tally.slowest->0),
{
    lemma_mean_at_least(tally.total, tally.successes, tally.fastest->0);
    lemma_digits_value_decimal(whole_millis(tally.fastest->0));
    lemma_digits_value_decimal(whole_millis(tally.slowest->0));
    lemma_two_decimals_written(
        shown_average(tally.total, tally.successes, tally.slowest->0),
    );
}

/// The summary of any round with a success shows the three times, the average
/// between the other two.
pub proof fn lemma_round_summary_shows_ordered_times(results: Seq<CheckResultView>)
    requires
        tally_of(results).successes > 0,
    ensures
        summary_times(tally_of(results)).len() == 3,
        whole_millis(tally_of(results).fastest->0) * 100 <= shown_average(
            tally_of(results).total,
            tally_of(results).successes,
            tally_of(results).slowest->0,
        ) <= whole_millis(tally_of(results).slowest->0) * 100,
{
    lemma_tally_of_consistent(results);
    lemma_summary_shows_ordered_times(tally_of(results));
}

/// A line made of a label and a number.
fn counted(label: &str, n: u128) -> (line: String)
    ensures
        line@ == label@ + decimal(n as nat),
{
    let mut line = String::from_str(label);
    push_decimal(&mut line, n);
    line
}

/// A line of the summary about a time in whole milliseconds.
fn timed(label: &str, nanos: u64) -> (line: String)
    ensures
        line@ == millis_line(label@, nanos as nat),
{
    let mut line = String::from_str(label);
    push_decimal(&mut line, (nanos / 1_000_000) as u128);
    line.append(" ms");
    line
}

/// The whole number nearest to `a / n`, the even one of two that are equally
/// near.
fn rounded_quotient(a: u128, n: u128) -> (q: u128)
    requires
        n > 0,
        n <= u64::MAX,
        a < u128::MAX,
    ensures
        q == nearest(a as nat, n as nat),
{
    let below: u128 = a / n;
    let left: u128 = a % n;
    if 2 * left > n || (2 * left == n && below % 2 == 1) {
        below + 1
    } else {
        below
    }
}

/// The running statistics of one round. Times are kept in nanoseconds.
#[derive(Debug)]
pub struct RoundStats {
    min_time: Option<u64>,
    max_time: Option<u64>,
    total_time: u128,
    successful_checks: u64,
    failed_checks: u64,
}

impl View for RoundStats {
    type V = Tally;

    closed spec fn view(&self) -> Tally {
        Tally {
            successes: self.successful_checks as nat,
            failures: self.failed_checks as nat,
            fastest: match self.min_time {
                Some(least) => Some(least as nat),
                None => None,
            },
            slowest: match self.max_time {
                Some(greatest) => Some(greatest as nat),
                None => None,
            },
            total: self.total_time as nat,
        }
    }
}

impl Default for RoundStats {
    fn default() -> (stats: RoundStats)
        ensures
            stats@ == Tally::empty(),
    {
        RoundStats::new()
    }
}

impl RoundStats {
    #[verifier::type_invariant]
    spec fn consistent(self) -> bool {
        self@.consistent()
    }

    /// The statistics of a round in which nothing has been received yet.
    pub fn new() -> (stats: RoundStats)
        ensures
            stats@ == Tally::empty(),
    {
        RoundStats {
            min_time: None,
            max_time: None,
            total_time: 0,
            successful_checks: 0,
            failed_checks: 0,
        }
    }

    /// Records one result: a success is counted and its elapsed time enters the
    /// least, the greatest and the sum; a failure is counted and nothing else.
    /// The counter that grows must have room.
    pub fn update(&mut self, status: &CheckResult)
        requires
            status@.outcome is Success ==> old(self)@.successes < u64::MAX,
            status@.outcome is Failure ==> old(self)@.failures < u64::MAX,
        ensures
            final(self)@ == old(self)@.record(status@),
    {
        proof {
            use_type_invariant(&*self);
            lemma_record_consistent(self@, status@);
        }
        let elapsed: u64 = status.elapsed_nanos;
        match status.outcome {
            Outcome::Success(_) => {
                let min_time: u64 = match self.min_time {
                    Some(least) if least <= elapsed => least,
                    _ => elapsed,
                };
                let max_time: u64 = match self.max_time {
                    Some(greatest) if greatest >= elapsed => greatest,
                    _ => elapsed,
                };
                proof {
                    let n = self.successful_checks as int;
                    let total = self.total_time as int;
                    if n > 0 {
                        let hi = self.max_time->0 as int;
                        assert(total <= n * 0xffff_ffff_ffff_ffff) by (nonlinear_arith)
                            requires
                                total <= n * hi,
                                hi <= 0xffff_ffff_ffff_ffff,
                                n > 0,
                        ;
                    }
                    assert(total + elapsed <= u128::MAX) by (nonlinear_arith)
                        requires
                            total <= n * 0xffff_ffff_ffff_ffff,
                            0 <= n < 0xffff_ffff_ffff_ffff,
                            elapsed <= 0xffff_ffff_ffff_ffff,
                            u128::MAX == 0xffff_ffff_ffff_ffff_ffff_ffff_ffff_ffff,
                    ;
                }
                *self = RoundStats {
                    min_time: Some(min_time),
                    max_time: Some(max_time),
                    total_time: self.total_time + elapsed as u128,
                    successful_checks: self.successful_checks + 1,
                    failed_checks: self.failed_checks,
                };
            },
            Outcome::Failure(_) => {
                *self = RoundStats {
                    min_time: self.min_time,
                    max_time: self.max_time,
                    total_time: self.total_time,
                    successful_checks: self.successful_checks,
                    failed_checks: self.failed_checks + 1,
                };
            },
        }
    }

    /// How many successes were recorded.
    pub fn successes(&self) -> (n: u64)
        ensures
            n == self@.successes,
    {
        self.successful_checks
    }

    /// How many failures were recorded.
    pub fn failures(&self) -> (n: u64)
        ensures
            n == self@.failures,
    {
        self.failed_checks
    }

    /// The shortest elapsed time among the successes, in nanoseconds.
    pub fn min_nanos(&self) -> (least: Option<u64>)
        ensures
            least is Some == self@.fastest is Some,
            least is Some ==> least->0 == self@.fastest->0,
    {
        self.min_time
    }

    /// The longest elapsed time among the successes, in nanoseconds.
    pub fn max_nanos(&self) -> (greatest: Option<u64>)
        ensures
            greatest is Some == self@.slowest is Some,
            greatest is Some ==> greatest->0 == self@.slowest->0,
    {
        self.max_time
    }

    /// The sum of the elapsed times of the successes, in nanoseconds.
    pub fn total_nanos(&self) -> (total: u128)
        ensures
            total == self@.total,
    {
        self.total_time
    }

    /// The summary of the round, line by line.
    pub fn summary_lines(&self) -> (lines: Vec<String>)
        ensures
            texts(lines@) == summary(self@),
            self@.consistent(),
    {
        proof {
            use_type_invariant(self);
        }
        let attempted: u128 = self.successful_checks as u128 + self.failed_checks as u128;
        let mut lines: Vec<String> = Vec::new();
        lines.push(String::from_str(""));
        lines.push(String::from_str("--- Round Summary ---"));
        lines.push(counted("Total URLs Attempted: ", attempted));
        lines.push(counted("Successful Checks: ", self.successful_checks as u128));
        lines.push(counted("Failed Checks: ", self.failed_checks as u128));
        let ghost head = texts(lines@);
        proof {
            reveal_strlit("");
            assert(head =~= seq![
                ""@,
                "--- Round Summary ---"@,
                "Total URLs Attempted: "@ + decimal(self@.attempted()),
                "Successful Checks: "@ + decimal(self@.successes),
                "Failed Checks: "@ + decimal(self@.failures),
            ]);
        }
        if self.successful_checks > 0 {
            match (self.min_time, self.max_time) {
                (Some(least), Some(greatest)) => {
                    let mean: u128 = rounded_quotient(
                        (self.total_time / 1_000_000) * 100,
                        self.successful_checks as u128,
                    );
                    let ceiling: u128 = ((greatest / 1_000_000) as u128) * 100;
                    let average: u128 = if mean > ceiling {
                        ceiling
                    } else {
                        mean
                    };
                    let mut line = String::from_str("Average Response Time (successful): ");
                    push_two_decimals(&mut line, average);
                    line.append(" ms");
                    lines.push(timed("Min Response Time (successful): ", least));
                    lines.push(timed("Max Response Time (successful): ", greatest));
                    lines.push(line);
                },
                _ => {},
            }
        } else if attempted > 0 {
            lines.push(
                String::from_str("No successful checks to calculate response time statistics."),
            );
        }
        assert(texts(lines@) =~= head + summary_times(self@));
        lines.push(String::from_str("---------------------"));
        lines.push(String::from_str(""));
        assert(texts(lines@) =~= summary(self@));
        lines
    }

    /// The average elapsed time of the successes in nanoseconds, rounded down.
    /// It lies between the least and the greatest.
    pub fn average_nanos(&self) -> (average: Option<u64>)
        ensures
            average is Some == self@.average() is Some,
            average is Some ==> average->0 == self@.average()->0,
            average is Some ==> self@.fastest->0 <= average->0 <= self@.slowest->0,
    {
        proof {
            use_type_invariant(self);
            lemma_average_between(self@);
        }
        if self.successful_checks == 0 {
            None
        } else {
            let average: u128 = self.total_time / (self.successful_checks as u128);
            Some(average as u64)
        }
    }
}

} // verus!
