use vstd::prelude::*;
use crate::result::{result_views, CheckResult, CheckResultView};
use crate::stats::{
    lemma_tally_counts_every_result, lemma_tally_of_consistent, tally_of, RoundStats,
};

verus! {

/// The mathematical value of a [`Collector`].
pub struct CollectorView {
    /// How many jobs the round dispatched.
    pub expected: nat,
    /// The results received so far, in the order of their arrival.
    pub results: Seq<CheckResultView>,
}

/// The single receiver of a round's results: it keeps them in the order of
/// their arrival, and keeps their statistics.
#[derive(Debug)]
pub struct Collector {
    expected: usize,
    results: Vec<CheckResult>,
    stats: RoundStats,
}

impl View for Collector {
    type V = CollectorView;

    closed spec fn view(&self) -> CollectorView {
        CollectorView { expected: self.expected as nat, results: result_views(self.results@) }
    }
}

impl Collector {
    #[verifier::type_invariant]
    spec fn coherent(self) -> bool {
        &&& self.results.len() <= self.expected
        &&& self.stats@ == tally_of(result_views(self.results@))
    }

    /// A collector for a round that dispatched `expected` jobs; nothing has
    /// arrived yet.
    pub fn new(expected: usize) -> (collector: Collector)
        ensures
            collector@ == (CollectorView { expected: expected as nat, results: Seq::empty() }),
    {
        let collector = Collector { expected, results: Vec::new(), stats: RoundStats::new() };
        assert(result_views(collector.results@) =~= Seq::empty());
        collector
    }

    /// True when every job of the round has brought its result.
    pub fn is_complete(&self) -> (complete: bool)
        ensures
            complete == (self@.results.len() == self@.expected),
            self@.results.len() <= self@.expected,
    {
        proof {
            use_type_invariant(self);
        }
        self.results.len() == self.expected
    }

    /// Takes in one result: it is counted in the statistics and put after the
    /// results that arrived before it.
    pub fn accept(self, result: CheckResult) -> (collector: Collector)
        requires
            self@.results.len() < self@.expected,
        ensures
            collector@.expected == self@.expected,
            collector@.results == self@.results.push(result@),
    {
        proof {
            use_type_invariant(&self);
            lemma_tally_counts_every_result(result_views(self.results@));
        }
        let Collector { expected, mut results, mut stats } = self;
        let ghost before = result_views(results@);
        stats.update(&result);
        results.push(result);
        proof {
            let after = result_views(results@);
            assert(after =~= before.push(result@));
            assert(after.drop_last() == before);
        }
        Collector { expected, results, stats }
    }

    /// How many jobs the round dispatched.
    pub fn expected(&self) -> (n: usize)
        ensures
            n == self@.expected,
    {
        self.expected
    }

    /// How many results have arrived.
    pub fn received(&self) -> (n: usize)
        ensures
            n == self@.results.len(),
            n <= self@.expected,
    {
        proof {
            use_type_invariant(self);
        }
        self.results.len()
    }

    /// The results that have arrived, in the order of their arrival.
    pub fn results(&self) -> (results: &Vec<CheckResult>)
        ensures
            result_views(results@) == self@.results,
    {
        &self.results
    }

    /// The statistics of the results that have arrived. Each of them is
    /// counted once, as a success or as a failure: when the round is complete,
    /// successes and failures add up to the jobs that were dispatched.
    pub fn stats(&self) -> (stats: &RoundStats)
        ensures
            stats@ == tally_of(self@.results),
            stats@.successes + stats@.failures == self@.results.len(),
            self@.results.len() == self@.expected ==> stats@.successes + stats@.failures
                == self@.expected,
            stats@.consistent(),
    {
        proof {
            use_type_invariant(self);
            lemma_tally_counts_every_result(result_views(self.results@));
            lemma_tally_of_consistent(result_views(self.results@));
        }
        &self.stats
    }

    /// Ends the collection and hands out the results and their statistics.
    pub fn finish(self) -> (parts: (Vec<CheckResult>, RoundStats))
        ensures
            result_views(parts.0@) == self@.results,
            parts.1@ == tally_of(self@.results),
    {
        proof {
            use_type_invariant(&self);
        }
        (self.results, self.stats)
    }
}

} // verus!
