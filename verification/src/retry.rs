use vstd::prelude::*;
use crate::policy::CheckPolicy;
use crate::probe::{evaluate_response, evaluated, response_fields};
use crate::result::{CheckResult, CheckResultView, Outcome, OutcomeView};

verus! {

/// The pause between a failed attempt and the next one, in milliseconds.
pub const BACKOFF_MILLIS: u64 = 100;

/// What one attempt brought.
#[derive(Debug)]
pub enum Verdict {
    /// A response arrived and was judged. Nothing would change if the request
    /// were made again, so no attempt follows.
    Terminal(Outcome),
    /// The request itself failed; holds the description of the failure. Another
    /// attempt may succeed.
    Retryable(String),
}

/// The mathematical value of a [`Verdict`].
pub enum VerdictView {
    Terminal(OutcomeView),
    Retryable(Seq<char>),
}

impl View for Verdict {
    type V = VerdictView;

    open spec fn view(&self) -> VerdictView {
        match self {
            Verdict::Terminal(outcome) => VerdictView::Terminal(outcome@),
            Verdict::Retryable(message) => VerdictView::Retryable(message@),
        }
    }
}

impl VerdictView {
    /// The outcome that a check has when this verdict is its last.
    pub open spec fn outcome(self) -> OutcomeView {
        match self {
            VerdictView::Terminal(outcome) => outcome,
            VerdictView::Retryable(message) => OutcomeView::Failure(message),
        }
    }
}

impl Verdict {
    /// The verdict on a response with status `code` and the header map
    /// `headers`: terminal, with the outcome that `policy` gives it.
    pub fn from_response(
        code: u16,
        headers: &reqwest::header::HeaderMap<reqwest::header::HeaderValue>,
        policy: &CheckPolicy,
    ) -> (verdict: Verdict)
        ensures
            verdict@ == VerdictView::Terminal(evaluated(code, response_fields(*headers), policy@)),
    {
        Verdict::Terminal(evaluate_response(code, headers, policy))
    }

    /// The verdict on a request that failed with `message`: retryable.
    pub fn from_transport_error(message: String) -> (verdict: Verdict)
        ensures
            verdict@ == VerdictView::Retryable(message@),
    {
        Verdict::Retryable(message)
    }
}

/// One attempt as the caller measured it.
#[derive(Debug)]
pub struct Attempt {
    pub verdict: Verdict,
    /// How long the attempt took, in nanoseconds.
    pub elapsed_nanos: u64,
    /// When the attempt finished, in seconds since the Unix epoch.
    pub completed_at: u64,
}

/// The mathematical value of an [`Attempt`].
pub struct AttemptView {
    pub verdict: VerdictView,
    pub elapsed_nanos: u64,
    pub completed_at: u64,
}

impl View for Attempt {
    type V = AttemptView;

    open spec fn view(&self) -> AttemptView {
        AttemptView {
            verdict: self.verdict@,
            elapsed_nanos: self.elapsed_nanos,
            completed_at: self.completed_at,
        }
    }
}

/// The result of a check of `url` whose last attempt was `attempt`: it carries
/// that attempt's elapsed time and completion time, and no other's.
pub open spec fn result_of(url: Seq<char>, attempt: AttemptView) -> CheckResultView {
    CheckResultView {
        url,
        outcome: attempt.verdict.outcome(),
        elapsed_nanos: attempt.elapsed_nanos,
        completed_at: attempt.completed_at,
    }
}

/// The mathematical value of a [`RetryLoop`].
pub struct RetryLoopView {
    pub url: Seq<char>,
    /// How many more attempts may follow a first attempt that failed.
    pub retries: nat,
    /// How many attempts have been made and have failed.
    pub attempts_made: nat,
}

/// The mathematical value of a [`Next`].
pub enum NextView {
    Retry { job: RetryLoopView, backoff_millis: u64 },
    Deliver(CheckResultView),
}

/// What follows an attempt. A terminal verdict ends the check, whatever was
/// allowed; a retryable one ends it only when no attempt is left, and
/// otherwise asks for another attempt after the backoff.
pub open spec fn step(job: RetryLoopView, attempt: AttemptView) -> NextView {
    if attempt.verdict is Retryable && job.attempts_made < job.retries {
        NextView::Retry {
            job: RetryLoopView { attempts_made: job.attempts_made + 1, ..job },
            backoff_millis: BACKOFF_MILLIS,
        }
    } else {
        NextView::Deliver(result_of(job.url, attempt))
    }
}

/// The check of one URL between two attempts.
#[derive(Debug)]
pub struct RetryLoop {
    url: String,
    retries: u32,
    attempts_made: u32,
}

/// What the caller does after an attempt.
#[derive(Debug)]
pub enum Next {
    /// Wait for `backoff_millis` milliseconds, attempt again, and report that
    /// attempt to `job`.
    Retry { job: RetryLoop, backoff_millis: u64 },
    /// The check is over: hand on this result.
    Deliver(CheckResult),
}

impl View for RetryLoop {
    type V = RetryLoopView;

    closed spec fn view(&self) -> RetryLoopView {
        RetryLoopView {
            url: self.url@,
            retries: self.retries as nat,
            attempts_made: self.attempts_made as nat,
        }
    }
}

impl View for Next {
    type V = NextView;

    open spec fn view(&self) -> NextView {
        match self {
            Next::Retry { job, backoff_millis } => NextView::Retry {
                job: job@,
                backoff_millis: *backoff_millis,
            },
            Next::Deliver(result) => NextView::Deliver(result@),
        }
    }
}

impl RetryLoop {
    #[verifier::type_invariant]
    spec fn within_budget(self) -> bool {
        self.attempts_made <= self.retries
    }

    /// Begins the check of `url`: no attempt has been made.
    pub fn start(url: String, policy: &CheckPolicy) -> (job: RetryLoop)
        ensures
            job@ == (RetryLoopView { url: url@, retries: policy.retries as nat, attempts_made: 0 }),
    {
        RetryLoop { url, retries: policy.retries, attempts_made: 0 }
    }

    /// The URL that is being checked.
    pub fn url(&self) -> (url: &String)
        ensures
            url@ == self@.url,
    {
        &self.url
    }

    /// How many attempts have been made and have failed.
    pub fn attempts_made(&self) -> (n: u32)
        ensures
            n == self@.attempts_made,
            n <= self@.retries,
    {
        proof {
            use_type_invariant(self);
        }
        self.attempts_made
    }

    /// Takes in the attempt that was just made and says what follows.
    pub fn on_attempt(self, attempt: Attempt) -> (next: Next)
        ensures
            next@ == step(self@, attempt@),
    {
        proof {
            use_type_invariant(&self);
        }
        let Attempt { verdict, elapsed_nanos, completed_at } = attempt;
        match verdict {
            Verdict::Terminal(outcome) => Next::Deliver(
                CheckResult { url: self.url, outcome, elapsed_nanos, completed_at },
            ),
            Verdict::Retryable(message) => {
                if self.attempts_made < self.retries {
                    Next::Retry {
                        job: RetryLoop {
                            url: self.url,
                            retries: self.retries,
                            attempts_made: self.attempts_made + 1,
                        },
                        backoff_millis: BACKOFF_MILLIS,
                    }
                } else {
                    Next::Deliver(
                        CheckResult {
                            url: self.url,
                            outcome: Outcome::Failure(message),
                            elapsed_nanos,
                            completed_at,
                        },
                    )
                }
            },
        }
    }
}

/// How a check went: how many attempts were made, and the result that was
/// delivered, if the check came to its end.
pub struct Run {
    pub attempts: nat,
    pub delivered: Option<CheckResultView>,
}

/// The check that starts at `job` and whose attempts bring `attempts`, one
/// after the other: it goes on while `step` asks for another attempt and there
/// is one to take, and makes no attempt after the one that is delivered.
pub open spec fn run(job: RetryLoopView, attempts: Seq<AttemptView>) -> Run
    decreases attempts.len(),
{
    if attempts.len() == 0 {
        Run { attempts: 0, delivered: None }
    } else {
        match step(job, attempts.first()) {
            NextView::Deliver(result) => Run { attempts: 1, delivered: Some(result) },
            NextView::Retry { job: next, backoff_millis } => {
                let rest = run(next, attempts.drop_first());
                Run { attempts: rest.attempts + 1, delivered: rest.delivered }
            },
        }
    }
}

/// A check that has not begun: no attempt has been made.
pub open spec fn fresh(url: Seq<char>, retries: nat) -> RetryLoopView {
    RetryLoopView { url, retries, attempts_made: 0 }
}

/// A check makes no more attempts than are left to it: one, and one for each
/// retry not yet used. Where it delivers a result, the result is that of the
/// last attempt made.
pub proof fn lemma_run_bounded(job: RetryLoopView, attempts: Seq<AttemptView>)
    requires
        job.attempts_made <= job.retries,
    ensures
        run(job, attempts).attempts <= job.retries - job.attempts_made + 1,
        run(job, attempts).attempts <= attempts.len(),
        run(job, attempts).delivered is Some ==> run(job, attempts).attempts >= 1 && run(
            job,
            attempts,
        ).delivered->0 == result_of(job.url, attempts[run(job, attempts).attempts - 1]),
    decreases attempts.len(),
{
    if attempts.len() > 0 {
        match step(job, attempts.first()) {
            NextView::Deliver(result) => {},
            NextView::Retry { job: next, backoff_millis } => {
                lemma_run_bounded(next, attempts.drop_first());
            },
        }
    }
}

/// With `retries` retries, a check makes at most `retries + 1` attempts,
/// whatever they bring.
pub proof fn lemma_at_most_one_more_than_retries(
    url: Seq<char>,
    retries: nat,
    attempts: Seq<AttemptView>,
)
    ensures
        run(fresh(url, retries), attempts).attempts <= retries + 1,
{
    lemma_run_bounded(fresh(url, retries), attempts);
}

/// While every attempt fails in a retryable way, a check uses every attempt
/// that is left to it, and then delivers the failure of the last one.
pub proof fn lemma_run_all_retryable(job: RetryLoopView, attempts: Seq<AttemptView>)
    requires
        job.attempts_made <= job.retries,
        attempts.len() >= job.retries - job.attempts_made + 1,
        forall|i: int|
            0 <= i <= job.retries - job.attempts_made ==> (#[trigger] attempts[i]).verdict
                is Retryable,
    ensures
        run(job, attempts).attempts == job.retries - job.attempts_made + 1,
        run(job, attempts).delivered == Some(
            result_of(job.url, attempts[job.retries - job.attempts_made]),
        ),
        run(job, attempts).delivered->0.outcome is Failure,
    decreases attempts.len(),
{
    assert(attempts[0].verdict is Retryable);
    match step(job, attempts.first()) {
        NextView::Deliver(result) => {},
        NextView::Retry { job: next, backoff_millis } => {
            let rest = attempts.drop_first();
            assert forall|i: int| 0 <= i <= next.retries - next.attempts_made implies (
            #[trigger] rest[i]).verdict is Retryable by {
                assert(rest[i] == attempts[i + 1]);
            }
            lemma_run_all_retryable(next, rest);
            assert(rest[next.retries - next.attempts_made] == attempts[job.retries
                - job.attempts_made]);
        },
    }
}

/// With `retries` retries, a check whose attempts all fail in a retryable way
/// makes exactly `retries + 1` attempts.
pub proof fn lemma_exactly_one_more_than_retries(
    url: Seq<char>,
    retries: nat,
    attempts: Seq<AttemptView>,
)
    requires
        attempts.len() >= retries + 1,
        forall|i: int| 0 <= i <= retries ==> (#[trigger] attempts[i]).verdict is Retryable,
    ensures
        run(fresh(url, retries), attempts).attempts == retries + 1,
        run(fresh(url, retries), attempts).delivered == Some(result_of(url, attempts[retries as int])),
{
    lemma_run_all_retryable(fresh(url, retries), attempts);
}

/// A terminal verdict is never followed by another attempt, however many
/// retries are left: its outcome is delivered at once. A failed header
/// assertion is such a verdict.
pub proof fn lemma_terminal_is_not_retried(job: RetryLoopView, attempt: AttemptView)
    requires
        attempt.verdict is Terminal,
    ensures
        step(job, attempt) == NextView::Deliver(result_of(job.url, attempt)),
        result_of(job.url, attempt).outcome == attempt.verdict->Terminal_0,
{
}

/// The first terminal attempt is the last one: where the attempts before the
/// `k`-th fail in a retryable way and retries are left for them, and the
/// `k`-th is terminal, exactly `k + 1` attempts are made and the `k`-th
/// decides the result.
pub proof fn lemma_run_stops_at_terminal(job: RetryLoopView, attempts: Seq<AttemptView>, k: int)
    requires
        0 <= k < attempts.len(),
        job.attempts_made + k <= job.retries,
        forall|i: int| 0 <= i < k ==> (#[trigger] attempts[i]).verdict is Retryable,
        attempts[k].verdict is Terminal,
    ensures
        run(job, attempts).attempts == k + 1,
        run(job, attempts).delivered == Some(result_of(job.url, attempts[k])),
    decreases k,
{
    if k > 0 {
        assert(attempts[0].verdict is Retryable);
        match step(job, attempts.first()) {
            NextView::Deliver(result) => {},
            NextView::Retry { job: next, backoff_millis } => {
                let rest = attempts.drop_first();
                assert forall|i: int| 0 <= i < k - 1 implies (#[trigger] rest[i]).verdict
                    is Retryable by {
                    assert(rest[i] == attempts[i + 1]);
                }
                assert(rest[k - 1] == attempts[k]);
                lemma_run_stops_at_terminal(next, rest, k - 1);
            },
        }
    }
}

} // verus!
