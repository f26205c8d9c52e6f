//! The timeout/retry policy applied to each store operation. The caller runs
//! the attempts (under a timer) and reports each one; this state machine
//! decides which event is emitted and whether another attempt follows.
//!
//! An operation that completes on its first attempt stops at once. One that
//! has timed out even once keeps re-issuing the operation, successful or not,
//! until its whole budget is spent: load is deliberately amplified after a
//! failure. A store error other than a timeout is not retried: it ends the
//! operation.
use vstd::prelude::*;

verus! {

/// Where one logical operation stands in its retry budget.
#[derive(Clone, Copy, Debug, PartialEq, Eq)]
pub struct RetryLoop {
    /// The budget the operation started with.
    pub budget: u64,
    /// Attempts still allowed.
    pub remaining: u64,
    /// Set once a first attempt has completed.
    pub finished: bool,
}

/// Whether another attempt is to be made from state `s`.
pub open spec fn is_active(s: RetryLoop) -> bool {
    !s.finished && s.remaining > 0
}

/// The state after an attempt that timed out (`timed_out`) or completed.
pub open spec fn retry_step(s: RetryLoop, timed_out: bool) -> RetryLoop {
    if timed_out {
        RetryLoop { remaining: (s.remaining - 1) as u64, ..s }
    } else if s.remaining != s.budget {
        RetryLoop { remaining: (s.remaining - 1) as u64, ..s }
    } else {
        RetryLoop { finished: true, ..s }
    }
}

/// The success flags of the events emitted from state `s` when the store's
/// successive attempts time out as `timed_out` says. Attempts past the end
/// of the loop are never made.
pub open spec fn retry_events(s: RetryLoop, timed_out: Seq<bool>) -> Seq<bool>
    decreases timed_out.len(),
{
    if !is_active(s) || timed_out.len() == 0 {
        Seq::empty()
    } else {
        seq![!timed_out[0]] + retry_events(retry_step(s, timed_out[0]), timed_out.drop_first())
    }
}

/// The state of a fresh operation with `budget` attempts.
pub open spec fn retry_start(budget: u64) -> RetryLoop {
    RetryLoop { budget, remaining: budget, finished: false }
}

impl RetryLoop {
    pub fn new(budget: u64) -> (r: Self)
        ensures
            r == retry_start(budget),
    {
        RetryLoop { budget, remaining: budget, finished: false }
    }

    /// Whether another attempt is to be made.
    pub fn should_attempt(&self) -> (r: bool)
        ensures
            r == is_active(*self),
    {
        !self.finished && self.remaining > 0
    }

    /// Records the result of an attempt and returns the success flag of the
    /// event to emit for it.
    pub fn record(&mut self, timed_out: bool) -> (success: bool)
        requires
            is_active(*old(self)),
        ensures
            success == !timed_out,
            *final(self) == retry_step(*old(self), timed_out),
    {
        if timed_out {
            self.remaining = self.remaining - 1;
        } else if self.remaining != self.budget {
            self.remaining = self.remaining - 1;
        } else {
            self.finished = true;
        }
        !timed_out
    }

    /// Ends the loop after an attempt that failed with a store error other
    /// than a timeout: such an error is not retried, and no event is emitted
    /// for it.
    pub fn record_error(&mut self)
        ensures
            final(self).finished,
            final(self).budget == old(self).budget,
            final(self).remaining == old(self).remaining,
            !is_active(*final(self)),
    {
        self.finished = true;
    }
}

/// Against a store whose every attempt times out, an operation emits exactly
/// `budget` failure events and no success event.
pub proof fn lemma_all_timeouts(budget: u64, timed_out: Seq<bool>)
    requires
        timed_out.len() >= budget,
        forall|i: int| 0 <= i < timed_out.len() ==> #[trigger] timed_out[i],
    ensures
        retry_events(retry_start(budget), timed_out) == Seq::new(budget as nat, |i: int| false),
{
    lemma_timeouts_from(retry_start(budget), timed_out);
}

proof fn lemma_timeouts_from(s: RetryLoop, timed_out: Seq<bool>)
    requires
        !s.finished,
        timed_out.len() >= s.remaining,
        forall|i: int| 0 <= i < timed_out.len() ==> #[trigger] timed_out[i],
    ensures
        retry_events(s, timed_out) == Seq::new(s.remaining as nat, |i: int| false),
    decreases s.remaining,
{
    if s.remaining == 0 {
        assert(retry_events(s, timed_out) =~= Seq::new(0, |i: int| false));
    } else {
        let rest = timed_out.drop_first();
        assert forall|i: int| 0 <= i < rest.len() implies #[trigger] rest[i] by {
            assert(timed_out[i + 1]);
        }
        assert(timed_out[0]);
        lemma_timeouts_from(retry_step(s, true), rest);
        assert(retry_events(s, timed_out) =~= Seq::new(s.remaining as nat, |i: int| false));
    }
}

/// Against a store whose first attempt completes, an operation emits exactly
/// one event, a success.
pub proof fn lemma_first_success(budget: u64, timed_out: Seq<bool>)
    requires
        budget > 0,
        timed_out.len() > 0,
        !timed_out[0],
    ensures
        retry_events(retry_start(budget), timed_out) == seq![true],
{
    let s = retry_start(budget);
    let t = retry_step(s, false);
    assert(!is_active(t));
    assert(retry_events(t, timed_out.drop_first()) == Seq::<bool>::empty());
    assert(retry_events(s, timed_out) =~= seq![true]);
}

/// Against a store that times out once and then always completes, an
/// operation emits one failure event followed by success events until the
/// budget is spent: `budget` events in all.
pub proof fn lemma_timeout_then_successes(budget: u64, timed_out: Seq<bool>)
    requires
        budget > 0,
        timed_out.len() >= budget,
        timed_out[0],
        forall|i: int| 0 < i < timed_out.len() ==> !#[trigger] timed_out[i],
    ensures
        retry_events(retry_start(budget), timed_out) == seq![false] + Seq::new(
            (budget - 1) as nat,
            |i: int| true,
        ),
{
    let s = retry_start(budget);
    let rest = timed_out.drop_first();
    assert forall|i: int| 0 <= i < rest.len() implies !#[trigger] rest[i] by {
        assert(!timed_out[i + 1]);
    }
    lemma_successes_after_failure(retry_step(s, true), rest);
}

proof fn lemma_successes_after_failure(s: RetryLoop, timed_out: Seq<bool>)
    requires
        !s.finished,
        s.remaining < s.budget,
        timed_out.len() >= s.remaining,
        forall|i: int| 0 <= i < timed_out.len() ==> !#[trigger] timed_out[i],
    ensures
        retry_events(s, timed_out) == Seq::new(s.remaining as nat, |i: int| true),
    decreases s.remaining,
{
    if s.remaining == 0 {
        assert(retry_events(s, timed_out) =~= Seq::new(0, |i: int| true));
    } else {
        let rest = timed_out.drop_first();
        assert forall|i: int| 0 <= i < rest.len() implies !#[trigger] rest[i] by {
            assert(!timed_out[i + 1]);
        }
        assert(!timed_out[0]);
        lemma_successes_after_failure(retry_step(s, false), rest);
        assert(retry_events(s, timed_out) =~= Seq::new(s.remaining as nat, |i: int| true));
    }
}

/// Whatever the store does, an operation emits at most `budget` events.
pub proof fn lemma_events_bounded(budget: u64, timed_out: Seq<bool>)
    ensures
        retry_events(retry_start(budget), timed_out).len() <= budget,
{
    lemma_events_bounded_from(retry_start(budget), timed_out);
}

proof fn lemma_events_bounded_from(s: RetryLoop, timed_out: Seq<bool>)
    ensures
        retry_events(s, timed_out).len() <= s.remaining,
    decreases timed_out.len(),
{
    if is_active(s) && timed_out.len() > 0 {
        lemma_events_bounded_from(retry_step(s, timed_out[0]), timed_out.drop_first());
    }
}

} // verus!
