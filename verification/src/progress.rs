//! The budget of a statement.
//!
//! A statement that never ends would stall its caller with nothing to show for it. SQLite
//! calls the progress handler at regular intervals, so a count above zero proves that the
//! statement is running, and an answer other than zero past the budget interrupts it.

use vstd::prelude::*;

verus! {

/// How many calls of the progress handler a connection may make before it is interrupted.
pub const PROGRESS_STEP_BUDGET: u64 = 2_000_000;

/// The count of the progress handler's calls since a connection was last opened.
#[derive(Debug, Clone, Copy, PartialEq, Eq, Structural)]
pub struct Progress {
    steps: u64,
}

impl View for Progress {
    type V = nat;

    closed spec fn view(&self) -> nat {
        self.steps as nat
    }
}

/// What the handler answers at a count: nonzero, which interrupts, past the budget.
pub open spec fn verdict(steps: nat) -> i32 {
    if steps > PROGRESS_STEP_BUDGET {
        1
    } else {
        0
    }
}

impl Progress {
    /// No call yet.
    pub fn new() -> (r: Self)
        ensures
            r@ == 0,
    {
        Progress { steps: 0 }
    }

    /// A connection is opened: the count starts again.
    pub fn reset(&mut self)
        ensures
            final(self)@ == 0,
    {
        self.steps = 0;
    }
}

/// Counts one call of the handler and answers it.
pub fn progress_handler(progress: &mut Progress) -> (r: i32)
    requires
        old(progress)@ < u64::MAX,
    ensures
        final(progress)@ == old(progress)@ + 1,
        r == verdict(final(progress)@),
{
    progress.steps = progress.steps + 1;
    if progress.steps > PROGRESS_STEP_BUDGET {
        return 1;
    }
    0
}

/// The count of the handler's calls since a connection was last opened.
pub fn progress_steps_since_open(progress: &Progress) -> (r: u64)
    ensures
        r == progress@,
{
    progress.steps
}

/// A connection is interrupted exactly where the handler has been called more than two
/// million times since one was opened, and stays so.
pub proof fn law_the_budget_is_two_million_calls(steps: nat)
    ensures
        verdict(steps) == 0 <==> steps <= 2_000_000,
        verdict(steps) == 1 <==> steps > 2_000_000,
{
}

} // verus!
