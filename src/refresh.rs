use vstd::prelude::*;

verus! {

/// Where a refresh run stands. The steps run in this order; a failed step
/// aborts the rest, with no rollback of the steps before it.
#[derive(Clone, Copy, Debug, PartialEq, Eq)]
pub enum RefreshStep {
    /// Build a new asset record from two sampled tracks.
    Build,
    /// Insert it into the system of record.
    Persist,
    /// Select the most recent records: the new window.
    Rewindow,
    /// Write the window's cache bundle.
    RefreshCache,
    /// Delete every record outside the window.
    Prune,
    /// Every step succeeded.
    Done,
    /// A step failed; nothing more runs.
    Aborted,
}

/// The step after `s` when it succeeded (`ok`) or failed.
pub open spec fn following_step(s: RefreshStep, ok: bool) -> RefreshStep {
    match s {
        RefreshStep::Done => RefreshStep::Done,
        RefreshStep::Aborted => RefreshStep::Aborted,
        _ => if !ok {
            RefreshStep::Aborted
        } else {
            match s {
                RefreshStep::Build => RefreshStep::Persist,
                RefreshStep::Persist => RefreshStep::Rewindow,
                RefreshStep::Rewindow => RefreshStep::RefreshCache,
                RefreshStep::RefreshCache => RefreshStep::Prune,
                _ => RefreshStep::Done,
            }
        },
    }
}

/// The position of a step in the run; the two ends come last.
pub open spec fn step_rank(s: RefreshStep) -> nat {
    match s {
        RefreshStep::Build => 0,
        RefreshStep::Persist => 1,
        RefreshStep::Rewindow => 2,
        RefreshStep::RefreshCache => 3,
        RefreshStep::Prune => 4,
        RefreshStep::Done => 5,
        RefreshStep::Aborted => 5,
    }
}

/// One refresh run.
pub struct RefreshRun {
    step: RefreshStep,
}

impl RefreshRun {
    /// The step the run is at.
    pub closed spec fn at(&self) -> RefreshStep {
        self.step
    }

    /// A run about to build.
    pub fn new() -> (r: RefreshRun)
        ensures
            r.at() == RefreshStep::Build,
    {
        RefreshRun { step: RefreshStep::Build }
    }

    /// The step to perform now; `Done` and `Aborted` perform nothing.
    pub fn current(&self) -> (r: RefreshStep)
        ensures
            r == self.at(),
    {
        self.step
    }

    /// Records whether the current step succeeded and moves the run on.
    pub fn advance(&mut self, succeeded: bool) -> (r: RefreshStep)
        ensures
            r == final(self).at(),
            final(self).at() == following_step(old(self).at(), succeeded),
    {
        let next = match self.step {
            RefreshStep::Done => RefreshStep::Done,
            RefreshStep::Aborted => RefreshStep::Aborted,
            RefreshStep::Build => if succeeded { RefreshStep::Persist } else { RefreshStep::Aborted },
            RefreshStep::Persist => if succeeded { RefreshStep::Rewindow } else { RefreshStep::Aborted },
            RefreshStep::Rewindow => if succeeded { RefreshStep::RefreshCache } else { RefreshStep::Aborted },
            RefreshStep::RefreshCache => if succeeded { RefreshStep::Prune } else { RefreshStep::Aborted },
            RefreshStep::Prune => if succeeded { RefreshStep::Done } else { RefreshStep::Aborted },
        };
        self.step = next;
        next
    }
}

/// Where a run from `s` stands after the step outcomes `oks`, in order.
pub open spec fn run_steps(s: RefreshStep, oks: Seq<bool>) -> RefreshStep
    decreases oks.len(),
{
    if oks.len() == 0 {
        s
    } else {
        run_steps(following_step(s, oks[0]), oks.drop_first())
    }
}

/// A run reaches a step only when every step before it succeeded, and it
/// is done only when all five succeeded: nothing is deleted unless the new
/// record was persisted, the window re-selected and its bundle written.
/// A failure is final.
pub proof fn lemma_steps_in_order(oks: Seq<bool>)
    ensures
        run_steps(RefreshStep::Build, oks) != RefreshStep::Aborted && run_steps(RefreshStep::Build, oks)
            != RefreshStep::Done ==> step_rank(run_steps(RefreshStep::Build, oks)) == oks.len()
            && forall|i: int| 0 <= i < oks.len() ==> #[trigger] oks[i],
        run_steps(RefreshStep::Build, oks) == RefreshStep::Done ==> oks.len() >= 5 && forall|i: int|
            0 <= i < 5 ==> #[trigger] oks[i],
        run_steps(RefreshStep::Aborted, oks) == RefreshStep::Aborted,
{
    lemma_run_from(RefreshStep::Build, oks);
    lemma_run_from(RefreshStep::Aborted, oks);
}

proof fn lemma_run_from(s: RefreshStep, oks: Seq<bool>)
    ensures
        s == RefreshStep::Aborted ==> run_steps(s, oks) == RefreshStep::Aborted,
        s == RefreshStep::Done ==> run_steps(s, oks) == RefreshStep::Done,
        run_steps(s, oks) != RefreshStep::Aborted && run_steps(s, oks) != RefreshStep::Done
            ==> step_rank(run_steps(s, oks)) == step_rank(s) + oks.len() && forall|i: int|
            0 <= i < oks.len() ==> #[trigger] oks[i],
        run_steps(s, oks) == RefreshStep::Done && s != RefreshStep::Done ==> oks.len() >= 5
            - step_rank(s) && forall|i: int| 0 <= i < 5 - step_rank(s) ==> #[trigger] oks[i],
    decreases oks.len(),
{
    if oks.len() > 0 {
        let rest = oks.drop_first();
        let n = following_step(s, oks[0]);
        lemma_run_from(n, rest);
        let r = run_steps(s, oks);
        assert(r == run_steps(n, rest));
        if r != RefreshStep::Aborted && r != RefreshStep::Done {
            assert(n != RefreshStep::Aborted && n != RefreshStep::Done);
            assert(oks[0]);
            assert forall|i: int| 0 <= i < oks.len() implies #[trigger] oks[i] by {
                if i > 0 {
                    assert(rest[i - 1] == oks[i]);
                }
            }
        }
        if r == RefreshStep::Done && s != RefreshStep::Done {
            assert(n != RefreshStep::Aborted);
            assert(oks[0]);
            assert forall|i: int| 0 <= i < 5 - step_rank(s) implies #[trigger] oks[i] by {
                if i > 0 && n != RefreshStep::Done {
                    assert(rest[i - 1] == oks[i]);
                }
            }
        }
    }
}

} // verus!
