use vstd::prelude::*;

verus! {

/// A header that every response must carry, with the value it must have.
#[derive(Debug)]
pub struct HeaderAssertion {
    /// The header's name in lower case; names are compared without regard to case.
    pub name: String,
    /// The expected value; values are compared exactly.
    pub value: String,
}

/// The mathematical value of a [`HeaderAssertion`].
pub struct HeaderAssertionView {
    pub name: Seq<char>,
    pub value: Seq<char>,
}

impl View for HeaderAssertion {
    type V = HeaderAssertionView;

    open spec fn view(&self) -> HeaderAssertionView {
        HeaderAssertionView { name: self.name@, value: self.value@ }
    }
}

/// How the URLs of a run are checked. It is fixed when the run starts.
#[derive(Debug)]
pub struct CheckPolicy {
    /// The time allowed for each attempt, in seconds.
    pub timeout_seconds: u64,
    /// How many more attempts follow a first attempt that failed.
    pub retries: u32,
    pub header_assertion: Option<HeaderAssertion>,
}

/// The mathematical value of a [`CheckPolicy`].
pub struct CheckPolicyView {
    pub timeout_seconds: u64,
    pub retries: u32,
    pub header_assertion: Option<HeaderAssertionView>,
}

impl View for CheckPolicy {
    type V = CheckPolicyView;

    open spec fn view(&self) -> CheckPolicyView {
        CheckPolicyView {
            timeout_seconds: self.timeout_seconds,
            retries: self.retries,
            header_assertion: match self.header_assertion {
                Some(assertion) => Some(assertion@),
                None => None,
            },
        }
    }
}

} // verus!
