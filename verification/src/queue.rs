use vstd::prelude::*;
use std::collections::VecDeque;
use crate::text::texts;

verus! {

/// The URLs of one round that wait to be checked, first in, first out.
#[derive(Debug)]
pub struct JobQueue {
    jobs: VecDeque<String>,
}

impl View for JobQueue {
    type V = Seq<Seq<char>>;

    /// The waiting URLs; the one that leaves next comes first.
    closed spec fn view(&self) -> Seq<Seq<char>> {
        texts(self.jobs@)
    }
}

impl JobQueue {
    /// A queue that holds the targets in their order. The targets themselves
    /// are left as they are, for the next round.
    pub fn from_targets(targets: &Vec<String>) -> (queue: JobQueue)
        ensures
            queue@ == texts(targets@),
    {
        let mut jobs: VecDeque<String> = VecDeque::new();
        let mut i: usize = 0;
        while i < targets.len()
            invariant
                i <= targets.len(),
                jobs@.len() == i,
                texts(jobs@) == texts(targets@).take(i as int),
            decreases targets.len() - i,
        {
            let ghost before = jobs@;
            let job = targets[i].clone();
            jobs.push_back(job);
            i += 1;
            assert forall|k: int| 0 <= k < jobs@.len() implies texts(jobs@)[k] == texts(
                targets@,
            ).take(i as int)[k] by {
                if k < before.len() {
                    assert(texts(before)[k] == texts(targets@).take(i - 1)[k]);
                }
            }
            assert(texts(jobs@) =~= texts(targets@).take(i as int));
        }
        assert(texts(targets@).take(targets.len() as int) == texts(targets@));
        JobQueue { jobs }
    }

    /// How many URLs wait.
    pub fn len(&self) -> (n: usize)
        ensures
            n == self@.len(),
    {
        self.jobs.len()
    }

    /// True when no URL waits.
    pub fn is_empty(&self) -> (empty: bool)
        ensures
            empty == (self@.len() == 0),
    {
        self.jobs.len() == 0
    }

    /// Takes the URL at the head of the queue. From an empty queue it takes
    /// nothing, and the queue stays empty.
    pub fn pop(&mut self) -> (job: Option<String>)
        ensures
            old(self)@.len() == 0 ==> job is None && final(self)@ == old(self)@,
            old(self)@.len() > 0 ==> job is Some && job->0@ == old(self)@.first() && final(self)@
                == old(self)@.drop_first(),
    {
        let job = self.jobs.pop_front();
        assert(old(self)@.len() > 0 ==> final(self)@ =~= old(self)@.drop_first());
        job
    }
}

} // verus!
