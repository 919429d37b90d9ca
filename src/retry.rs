use vstd::prelude::*;
use crate::error::Error;

verus! {

/// Attempts a random track search may take before it gives up.
pub const SEARCH_ATTEMPTS: u32 = 10;

/// Attempts the initial track search of the cover builder may take.
pub const INITIAL_SEARCH_ATTEMPTS: u32 = 3;

/// Seconds to wait between two attempts; fixed, not growing.
pub const RETRY_DELAY_SECS: u64 = 10;

/// The kind of a decision, as a value of the model.
#[derive(Clone, Copy, Debug, PartialEq, Eq)]
pub enum Verdict {
    Accept,
    Retry,
    GiveUp,
}

/// The decision after an attempt whose outcome is `outcome` (the total of
/// hits, or nothing when the request or its decoding failed), when `made`
/// attempts had been made before it out of a budget of `max`. Only a
/// non-empty result is accepted.
pub open spec fn retry_verdict(made: nat, max: nat, outcome: Option<u64>) -> Verdict {
    if made >= max {
        Verdict::GiveUp
    } else if outcome matches Some(t) && t > 0 {
        Verdict::Accept
    } else if made + 1 >= max {
        Verdict::GiveUp
    } else {
        Verdict::Retry
    }
}

/// What to do after a search attempt.
#[derive(Debug)]
pub enum RetryDecision {
    /// The result is not empty: use it.
    Accept,
    /// Wait the fixed delay, then try again with a fresh query.
    RetryAfterDelay,
    /// The budget is spent; the build stops with this error.
    GiveUp(Error),
}

/// The kind of a decision.
pub open spec fn decision_verdict(d: RetryDecision) -> Verdict {
    match d {
        RetryDecision::Accept => Verdict::Accept,
        RetryDecision::RetryAfterDelay => Verdict::Retry,
        RetryDecision::GiveUp(_) => Verdict::GiveUp,
    }
}

/// The attempt counter of a search with a bounded number of attempts.
pub struct SearchRetry {
    attempts: u32,
    max_attempts: u32,
}

impl SearchRetry {
    /// Attempts made so far.
    pub closed spec fn attempts_made(&self) -> nat {
        self.attempts as nat
    }

    /// The budget of attempts.
    pub closed spec fn budget(&self) -> nat {
        self.max_attempts as nat
    }

    /// A search that has made no attempt yet, with `max_attempts` to spend.
    pub fn new(max_attempts: u32) -> (r: SearchRetry)
        ensures
            r.attempts_made() == 0,
            r.budget() == max_attempts,
    {
        SearchRetry { attempts: 0, max_attempts }
    }

    /// Attempts made so far.
    pub fn attempts(&self) -> (r: u32)
        ensures
            r == self.attempts_made(),
    {
        self.attempts
    }

    /// Records the outcome of one more attempt and decides what follows.
    pub fn record(&mut self, outcome: Option<u64>) -> (r: RetryDecision)
        ensures
            decision_verdict(r) == retry_verdict(old(self).attempts_made(), old(self).budget(), outcome),
            r matches RetryDecision::GiveUp(e) ==> e matches Error::CriticalError(_),
            final(self).budget() == old(self).budget(),
            final(self).attempts_made() == if old(self).attempts_made() < old(self).budget() {
                old(self).attempts_made() + 1
            } else {
                old(self).attempts_made()
            },
    {
        if self.attempts >= self.max_attempts {
            return RetryDecision::GiveUp(Error::critical("Failed to complete initial track search"));
        }
        self.attempts = self.attempts + 1;
        match outcome {
            Some(total) if total > 0 => RetryDecision::Accept,
            _ => {
                if self.attempts >= self.max_attempts {
                    RetryDecision::GiveUp(Error::critical("Failed to complete initial track search"))
                } else {
                    RetryDecision::RetryAfterDelay
                }
            },
        }
    }
}

/// The attempts made when a search that has made `made` attempts is fed
/// `outcomes` in order, going on only while the decision is to retry.
pub open spec fn attempts_run(max: nat, made: nat, outcomes: Seq<Option<u64>>) -> nat
    decreases outcomes.len(),
{
    if outcomes.len() == 0 {
        made
    } else if retry_verdict(made, max, outcomes[0]) == Verdict::Retry {
        attempts_run(max, made + 1, outcomes.drop_first())
    } else if made < max {
        made + 1
    } else {
        made
    }
}

/// The decision that ends the run, if the outcomes last until one does.
pub open spec fn run_verdict(max: nat, made: nat, outcomes: Seq<Option<u64>>) -> Option<Verdict>
    decreases outcomes.len(),
{
    if outcomes.len() == 0 {
        None
    } else if retry_verdict(made, max, outcomes[0]) == Verdict::Retry {
        run_verdict(max, made + 1, outcomes.drop_first())
    } else {
        Some(retry_verdict(made, max, outcomes[0]))
    }
}

/// No search makes more attempts than its budget, whatever the outcomes.
pub proof fn lemma_attempts_within_budget(max: nat, made: nat, outcomes: Seq<Option<u64>>)
    requires
        made <= max,
    ensures
        attempts_run(max, made, outcomes) <= max,
    decreases outcomes.len(),
{
    if outcomes.len() > 0 && retry_verdict(made, max, outcomes[0]) == Verdict::Retry {
        lemma_attempts_within_budget(max, made + 1, outcomes.drop_first());
    }
}

/// When every attempt fails or finds nothing, the search gives up after
/// exactly its budget of attempts.
pub proof fn lemma_all_failures_give_up(max: nat, made: nat, outcomes: Seq<Option<u64>>)
    requires
        made < max,
        outcomes.len() >= max - made,
        forall|i: int| 0 <= i < outcomes.len() ==> !(#[trigger] outcomes[i] matches Some(t) && t > 0),
    ensures
        attempts_run(max, made, outcomes) == max,
        run_verdict(max, made, outcomes) == Some(Verdict::GiveUp),
    decreases outcomes.len(),
{
    assert(!(outcomes[0] matches Some(t) && t > 0));
    if made + 1 < max {
        let rest = outcomes.drop_first();
        assert forall|i: int| 0 <= i < rest.len() implies !(#[trigger] rest[i] matches Some(t) && t > 0) by {
            assert(rest[i] == outcomes[i + 1]);
        }
        lemma_all_failures_give_up(max, made + 1, rest);
    }
}

} // verus!
