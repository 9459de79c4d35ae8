//! Fairness between tasks that are always ready.

use vstd::prelude::*;

verus! {

/// Bounds consecutive ready iterations, including frames that submit no I/O.
#[derive(Debug)]
pub struct WorkBudget {
    left: u8,
}

impl WorkBudget {
    /// How many iterations are left before others get their turn.
    pub closed spec fn remaining(self) -> nat {
        self.left as nat
    }

    pub fn new() -> (result: Self)
        ensures
            result.remaining() == 16,
    {
        WorkBudget { left: 16 }
    }

    /// Counts an iteration, and says whether others get their turn before it.
    pub fn step(&mut self) -> (yields: bool)
        ensures
            yields == (old(self).remaining() == 0),
            final(self).remaining() == (if yields {
                15
            } else {
                old(self).remaining() - 1
            }),
    {
        let yields = self.left == 0;
        if yields {
            self.left = 16;
        }
        self.left = self.left - 1;
        yields
    }
}

/// The budget that is left after so many iterations.
pub open spec fn left_after(remaining: nat, steps: nat) -> nat
    decreases steps,
{
    if steps == 0 {
        remaining
    } else {
        let left = left_after(remaining, (steps - 1) as nat);
        if left == 0 {
            15
        } else {
            (left - 1) as nat
        }
    }
}

/// Others get their turn: no more iterations than the budget holds run before
/// one that yields.
pub proof fn others_get_their_turn(remaining: nat)
    ensures
        left_after(remaining, remaining) == 0,
    decreases remaining,
{
    left_after_counts_down(remaining, remaining);
}

proof fn left_after_counts_down(remaining: nat, steps: nat)
    requires
        steps <= remaining,
    ensures
        left_after(remaining, steps) == remaining - steps,
    decreases steps,
{
    if steps > 0 {
        left_after_counts_down(remaining, (steps - 1) as nat);
    }
}

/// A task yields exactly where its budget is used up, and then has a full one again, of
/// which the iteration takes its part.
pub proof fn budgets_are_renewed(fresh: WorkBudget, budget: &mut WorkBudget, yields: bool)
    requires
        call_ensures(WorkBudget::new, (), fresh),
        call_ensures(WorkBudget::step, (budget,), yields),
    ensures
        fresh.remaining() == 16,
        yields <==> old(budget).remaining() == 0,
        yields ==> final(budget).remaining() + 1 == fresh.remaining(),
        !yields ==> final(budget).remaining() + 1 == old(budget).remaining(),
{
}

} // verus!
