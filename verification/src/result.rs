use vstd::prelude::*;

verus! {

/// How one check ended.
#[derive(Debug)]
pub enum Outcome {
    /// A response arrived and, where a header assertion is configured, met it.
    /// Holds the HTTP status code of the response.
    Success(u16),
    /// The request failed, or the response did not meet the header assertion.
    /// Holds the message that describes the failure.
    Failure(String),
}

/// The mathematical value of an [`Outcome`].
pub enum OutcomeView {
    Success(u16),
    Failure(Seq<char>),
}

impl View for Outcome {
    type V = OutcomeView;

    open spec fn view(&self) -> OutcomeView {
        match self {
            Outcome::Success(code) => OutcomeView::Success(*code),
            Outcome::Failure(message) => OutcomeView::Failure(message@),
        }
    }
}

impl Outcome {
    /// True when the check succeeded.
    pub fn is_success(&self) -> (b: bool)
        ensures
            b == (self@ is Success),
    {
        match self {
            Outcome::Success(_) => true,
            Outcome::Failure(_) => false,
        }
    }

    /// A copy of this outcome.
    pub fn duplicate(&self) -> (copy: Outcome)
        ensures
            copy@ == self@,
    {
        match self {
            Outcome::Success(code) => Outcome::Success(*code),
            Outcome::Failure(message) => Outcome::Failure(message.clone()),
        }
    }
}

/// The outcome of checking one URL.
#[derive(Debug)]
pub struct CheckResult {
    /// The URL exactly as it was given.
    pub url: String,
    pub outcome: Outcome,
    /// How long the final attempt took, in nanoseconds.
    pub elapsed_nanos: u64,
    /// When the final attempt finished, in seconds since the Unix epoch.
    pub completed_at: u64,
}

/// The mathematical value of a [`CheckResult`].
pub struct CheckResultView {
    pub url: Seq<char>,
    pub outcome: OutcomeView,
    pub elapsed_nanos: u64,
    pub completed_at: u64,
}

impl View for CheckResult {
    type V = CheckResultView;

    open spec fn view(&self) -> CheckResultView {
        CheckResultView {
            url: self.url@,
            outcome: self.outcome@,
            elapsed_nanos: self.elapsed_nanos,
            completed_at: self.completed_at,
        }
    }
}

impl CheckResult {
    /// The elapsed time of the final attempt in whole milliseconds.
    pub fn elapsed_millis(&self) -> (ms: u64)
        ensures
            ms == self.elapsed_nanos / 1_000_000,
    {
        self.elapsed_nanos / 1_000_000
    }

    /// A copy of this result.
    pub fn duplicate(&self) -> (copy: CheckResult)
        ensures
            copy@ == self@,
    {
        CheckResult {
            url: self.url.clone(),
            outcome: self.outcome.duplicate(),
            elapsed_nanos: self.elapsed_nanos,
            completed_at: self.completed_at,
        }
    }
}

/// The values of a sequence of results, in the same order.
pub open spec fn result_views(results: Seq<CheckResult>) -> Seq<CheckResultView> {
    results.map_values(|r: CheckResult| r@)
}

} // verus!
