//! The limiter as a mathematical value, and its transitions.
//!
//! A state holds the total budget, the free budget, the claims of the
//! admitted processes and the queue of the waiting ones. The executable
//! limiter is specified by the functions of this module.

use vstd::prelude::*;
use crate::resources::resource_profile::Budget;

verus! {

/// What an admitted process holds: its name and its declared demand.
pub struct Claim {
    pub name: Seq<char>,
    pub demand: Budget,
}

/// A process that waits for admission.
pub struct Waiting {
    pub pid: i32,
    pub name: Seq<char>,
    pub demand: Budget,
}

impl Waiting {
    /// What the process will hold once it is admitted.
    pub open spec fn claim(self) -> Claim {
        Claim { name: self.name, demand: self.demand }
    }
}

/// The sum of the demands of all claims in `active`.
pub open spec fn held(active: Map<i32, Claim>) -> Budget
    decreases active.dom().len(),
    when active.dom().finite()
{
    if active.dom().len() == 0 {
        Budget::zero()
    } else {
        let pid = active.dom().choose();
        active[pid].demand.plus(held(active.remove(pid)))
    }
}

/// The state of a limiter.
pub struct LimiterState {
    /// Total resource budget.
    pub total: Budget,
    /// Currently available resources; negative where an admission went
    /// beyond the budget.
    pub free: Budget,
    /// The admitted processes, by process id.
    pub active: Map<i32, Claim>,
    /// The waiting processes, in arrival order.
    pub paused: Seq<Waiting>,
}

impl LimiterState {
    /// The state of a limiter that has seen no process.
    pub open spec fn initial(total: Budget) -> LimiterState {
        LimiterState { total, free: total, active: Map::empty(), paused: Seq::empty() }
    }

    /// The free budget plus everything that admitted processes hold.
    pub open spec fn accounted(self) -> Budget {
        self.free.plus(held(self.active))
    }

    /// Whether `pid` is in the queue.
    pub open spec fn is_paused(self, pid: i32) -> bool {
        exists|i: int| 0 <= i < self.paused.len() && (#[trigger] self.paused[i]).pid == pid
    }

    /// Whether `pid` is admitted or queued.
    pub open spec fn tracks(self, pid: i32) -> bool {
        self.active.contains_key(pid) || self.is_paused(pid)
    }

    /// What holds of every state that a limiter reaches, whatever it was
    /// told: demands are non-negative, and what is accounted for lies
    /// between nothing and the total budget.
    pub open spec fn valid(self) -> bool {
        &&& self.active.dom().finite()
        &&& self.total.is_demand()
        &&& forall|pid: i32|
            self.active.contains_key(pid) ==> (#[trigger] self.active[pid]).demand.is_demand()
        &&& forall|i: int|
            0 <= i < self.paused.len() ==> (#[trigger] self.paused[i]).demand.is_demand()
        &&& self.accounted().is_demand()
        &&& self.accounted().fits_within(self.total)
    }

    /// What holds as long as no process id is announced while it is still
    /// tracked: the budget is conserved, no process is both admitted and
    /// queued, and none is queued twice.
    pub open spec fn consistent(self) -> bool {
        &&& self.valid()
        &&& self.accounted() == self.total
        &&& forall|i: int|
            0 <= i < self.paused.len() ==> !self.active.contains_key(
                (#[trigger] self.paused[i]).pid,
            )
        &&& forall|i: int, j: int|
            0 <= i < j < self.paused.len() ==> (#[trigger] self.paused[i]).pid != (
            #[trigger] self.paused[j]).pid
    }

    /// Whether no process is admitted.
    pub open spec fn idle(self) -> bool {
        self.active.dom() =~= Set::empty()
    }

    /// Whether a process with the given demand may be admitted now: the
    /// demand is within the free budget, or nothing else is running.
    pub open spec fn fits(self, demand: Budget) -> bool {
        demand.fits_within(self.free) || self.idle()
    }

    /// Whether the queue has a head and it may be admitted now.
    pub open spec fn head_ready(self) -> bool {
        self.paused.len() > 0 && self.fits(self.paused[0].demand)
    }

    /// Whether nothing waits that could be admitted now: the queue is
    /// empty or its head does not fit.
    pub open spec fn settled(self) -> bool {
        !self.head_ready()
    }

    /// The state with `waiting` added at the tail of the queue.
    pub open spec fn enqueue(self, waiting: Waiting) -> LimiterState {
        LimiterState { paused: self.paused.push(waiting), ..self }
    }

    /// The state with the head of the queue taken out.
    pub open spec fn pop(self) -> LimiterState {
        LimiterState { paused: self.paused.drop_first(), ..self }
    }

    /// The state with `claim` subtracted from the free budget and recorded
    /// for `pid`.
    pub open spec fn grant(self, pid: i32, claim: Claim) -> LimiterState {
        LimiterState {
            free: self.free.minus(claim.demand),
            active: self.active.insert(pid, claim),
            ..self
        }
    }

    /// The state with the claim of `pid`, if it has one, given back to the
    /// free budget.
    pub open spec fn release(self, pid: i32) -> LimiterState {
        if self.active.contains_key(pid) {
            LimiterState {
                free: self.free.plus(self.active[pid].demand),
                active: self.active.remove(pid),
                ..self
            }
        } else {
            self
        }
    }

    /// The state after the head of the queue was admitted and a continue
    /// was issued for it: the admission stands if the continue succeeded
    /// and is rolled back if it failed.
    pub open spec fn settle_head(self, resumed: bool) -> LimiterState {
        let head = self.paused[0];
        let admitted = self.pop().grant(head.pid, head.claim());
        if resumed {
            admitted
        } else {
            admitted.release(head.pid)
        }
    }

    /// The state after the queue's heads were settled one after another,
    /// `outcomes` telling for each in turn whether its continue succeeded.
    pub open spec fn drain(self, outcomes: Seq<bool>) -> LimiterState
        decreases outcomes.len(),
    {
        if outcomes.len() == 0 {
            self
        } else {
            self.drain(outcomes.drop_last()).settle_head(outcomes.last())
        }
    }

    /// Whether each head that `drain` settles along `outcomes` was ready
    /// when its turn came.
    pub open spec fn admissible(self, outcomes: Seq<bool>) -> bool
        decreases outcomes.len(),
    {
        outcomes.len() == 0 || (self.admissible(outcomes.drop_last()) && self.drain(
            outcomes.drop_last(),
        ).head_ready())
    }

    /// Whether `outcomes` describes a complete drain: every head was ready
    /// at its turn, and what is left has no ready head.
    pub open spec fn drains(self, outcomes: Seq<bool>) -> bool {
        self.admissible(outcomes) && self.drain(outcomes).settled()
    }

    /// Whether a complete drain can lead from this state to `post`.
    pub open spec fn drains_to(self, post: LimiterState) -> bool {
        exists|outcomes: Seq<bool>| #[trigger] self.drains(outcomes) && post == self.drain(outcomes)
    }

    /// The state with every queue entry of `pid` removed.
    pub open spec fn forget(self, pid: i32) -> LimiterState {
        LimiterState { paused: self.paused.filter(|w: Waiting| w.pid != pid), ..self }
    }

    /// Whether the exit of `pid` can lead from this state to `post`: the
    /// claim of an admitted `pid` is released and the queue drained, and
    /// in any case `pid` leaves the queue.
    pub open spec fn exits_to(self, pid: i32, post: LimiterState) -> bool {
        if self.active.contains_key(pid) {
            exists|outcomes: Seq<bool>|
                #[trigger] self.release(pid).drains(outcomes) && post == self.release(pid).drain(
                    outcomes,
                ).forget(pid)
        } else {
            post == self.forget(pid)
        }
    }
}

} // verus!
