//! The cooperative yield point: a future that is pending exactly once, then
//! ready.
use vstd::prelude::*;

verus! {

/// What one poll of a future reports.
#[derive(Debug, Clone, Copy, PartialEq, Eq, Structural)]
pub enum PollOutcome {
    Ready,
    Pending,
}

/// The yield point; the flag records whether it has already yielded once.
pub struct YieldNow(bool);

impl View for YieldNow {
    type V = bool;

    closed spec fn view(&self) -> bool {
        self.0
    }
}

/// A fresh yield point, not yet yielded.
pub fn yield_now() -> (y: YieldNow)
    ensures
        !y@,
{
    YieldNow(false)
}

/// What a poll reports for a yield point with the given flag.
pub open spec fn poll_outcome(yielded: bool) -> PollOutcome {
    if yielded {
        PollOutcome::Ready
    } else {
        PollOutcome::Pending
    }
}

impl YieldNow {
    /// One poll: pending the first time (and from then on marked as
    /// yielded), ready every time after.
    pub fn poll(&mut self) -> (outcome: PollOutcome)
        ensures
            outcome == poll_outcome(old(self)@),
            final(self)@,
    {
        if self.0 {
            PollOutcome::Ready
        } else {
            self.0 = true;
            PollOutcome::Pending
        }
    }
}

/// The outcomes of `n` successive polls of a yield point whose flag starts
/// as `yielded` (every poll leaves the flag set).
pub open spec fn poll_outcomes(yielded: bool, n: nat) -> Seq<PollOutcome>
    decreases n,
{
    if n == 0 {
        Seq::empty()
    } else {
        seq![poll_outcome(yielded)] + poll_outcomes(true, (n - 1) as nat)
    }
}

/// A yield point that has already yielded reports `Ready` on every poll.
pub proof fn lemma_yielded_stays_ready(n: nat)
    ensures
        poll_outcomes(true, n) == Seq::new(n, |i: int| PollOutcome::Ready),
    decreases n,
{
    if n > 0 {
        lemma_yielded_stays_ready((n - 1) as nat);
    }
    assert(poll_outcomes(true, n) =~= Seq::new(n, |i: int| PollOutcome::Ready));
}

/// A fresh yield point, polled `n + 1` times, is pending exactly once (on
/// the first poll) and ready on every poll after.
pub proof fn lemma_yield_pending_exactly_once(n: nat)
    ensures
        poll_outcomes(false, n + 1) == seq![PollOutcome::Pending] + Seq::new(
            n,
            |i: int| PollOutcome::Ready,
        ),
{
    lemma_yielded_stays_ready(n);
    assert(((n + 1) as nat - 1) as nat == n);
}

} // verus!
