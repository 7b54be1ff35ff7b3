use vstd::prelude::*;

verus! {

/// How many of the outcomes are successes.
pub open spec fn count_saved(outcomes: Seq<bool>) -> nat
    decreases outcomes.len(),
{
    if outcomes.len() == 0 {
        0
    } else {
        count_saved(outcomes.drop_last()) + if outcomes.last() {
            1nat
        } else {
            0nat
        }
    }
}

/// How many of the outcomes are failures.
pub open spec fn count_failed(outcomes: Seq<bool>) -> nat
    decreases outcomes.len(),
{
    if outcomes.len() == 0 {
        0
    } else {
        count_failed(outcomes.drop_last()) + if outcomes.last() {
            0nat
        } else {
            1nat
        }
    }
}

/// What a batch has seen: how many requests it holds, and the outcome of
/// each request attempted so far, in order.
pub struct BatchView {
    pub total: nat,
    pub outcomes: Seq<bool>,
}

/// The progress of a batch of requests, processed one after the other in
/// input order. Each request is attempted exactly once, whatever the outcome
/// of the ones before it, and the batch counts the successes.
pub struct Batch {
    total: usize,
    attempted: usize,
    saved: usize,
    outcomes: Ghost<Seq<bool>>,
}

impl View for Batch {
    type V = BatchView;

    closed spec fn view(&self) -> BatchView {
        BatchView { total: self.total as nat, outcomes: self.outcomes@ }
    }
}

impl Batch {
    /// The counters agree with the outcomes recorded, and no more requests
    /// were attempted than the batch holds.
    pub closed spec fn wf(&self) -> bool {
        &&& self.attempted == self.outcomes@.len()
        &&& self.attempted <= self.total
        &&& self.saved == count_saved(self.outcomes@)
    }

    /// A batch of `total` requests, none attempted yet.
    pub fn new(total: usize) -> (r: Batch)
        ensures
            r.wf(),
            r@.total == total,
            r@.outcomes == Seq::<bool>::empty(),
    {
        Batch { total, attempted: 0, saved: 0, outcomes: Ghost(Seq::empty()) }
    }

    /// The position of the request to attempt next, or `None` once every
    /// request has been attempted.
    pub fn next_index(&self) -> (r: Option<usize>)
        requires
            self.wf(),
        ensures
            r is Some <==> self@.outcomes.len() < self@.total,
            r matches Some(i) ==> i == self@.outcomes.len(),
    {
        if self.attempted < self.total {
            Some(self.attempted)
        } else {
            None
        }
    }

    /// Records the outcome of the request that `next_index` named.
    pub fn record(&mut self, success: bool)
        requires
            old(self).wf(),
            old(self)@.outcomes.len() < old(self)@.total,
        ensures
            final(self).wf(),
            final(self)@.total == old(self)@.total,
            final(self)@.outcomes == old(self)@.outcomes.push(success),
    {
        let ghost before = self.outcomes@;
        proof {
            lemma_count_saved_bounded(before);
        }
        let ghost after = before.push(success);
        assert(after.drop_last() =~= before);
        self.attempted = self.attempted + 1;
        if success {
            self.saved = self.saved + 1;
        }
        self.outcomes = Ghost(after);
    }

    /// Whether every request has been attempted.
    pub fn is_done(&self) -> (r: bool)
        requires
            self.wf(),
        ensures
            r == (self@.outcomes.len() == self@.total),
    {
        self.attempted == self.total
    }

    /// The number of requests that succeeded so far.
    pub fn saved(&self) -> (r: usize)
        requires
            self.wf(),
        ensures
            r == count_saved(self@.outcomes),
    {
        self.saved
    }
}

proof fn lemma_count_saved_bounded(outcomes: Seq<bool>)
    ensures
        count_saved(outcomes) <= outcomes.len(),
    decreases outcomes.len(),
{
    if outcomes.len() > 0 {
        lemma_count_saved_bounded(outcomes.drop_last());
    }
}

/// Of `n` attempted requests of which `k` failed, exactly `n - k` succeeded.
pub proof fn lemma_saved_is_total_minus_failed(outcomes: Seq<bool>)
    ensures
        count_saved(outcomes) == outcomes.len() - count_failed(outcomes),
    decreases outcomes.len(),
{
    if outcomes.len() > 0 {
        lemma_saved_is_total_minus_failed(outcomes.drop_last());
    }
}

/// A batch of `n` requests that is done has an outcome for each of the `n`,
/// and of those with `k` failures it counts exactly `n - k` as saved.
pub proof fn lemma_finished_batch(b: Batch)
    requires
        b.wf(),
        b@.outcomes.len() == b@.total,
    ensures
        count_saved(b@.outcomes) == b@.total - count_failed(b@.outcomes),
{
    lemma_saved_is_total_minus_failed(b@.outcomes);
}

} // verus!
