//! The admission controller.

use std::collections::HashMap;
use std::collections::VecDeque;
use vstd::prelude::*;
use crate::control::ProcessControl;
use crate::invariants::{
    lemma_drain_consistent, lemma_drain_queues_nothing, lemma_enqueue_consistent,
    lemma_forget_valid, lemma_grant_valid, lemma_held_empty, lemma_held_is_demand,
    lemma_held_remove, lemma_initial_consistent, lemma_release_consistent, lemma_release_valid,
};
use crate::model::{Claim, LimiterState, Waiting};
use crate::resources::resource_profile::ResourceProfile;
use crate::resources::rules::{lemma_profile_is_demand, profile_for, profile_of};

verus! {

/// Per-PID record of claimed resources.
struct ActiveEntry {
    name: String,
    profile: ResourceProfile,
}

/// A paused process waiting for resources to free up.
struct PausedEntry {
    pid: i32,
    name: String,
    profile: ResourceProfile,
}

impl View for ActiveEntry {
    type V = Claim;

    closed spec fn view(&self) -> Claim {
        Claim { name: self.name@, demand: self.profile@ }
    }
}

impl View for PausedEntry {
    type V = Waiting;

    closed spec fn view(&self) -> Waiting {
        Waiting { pid: self.pid, name: self.name@, demand: self.profile@ }
    }
}

/// Result of the on_exec call.
#[derive(Clone, Copy, Debug, PartialEq, Eq)]
pub enum OnExecResult {
    /// Process is not throttled.
    NotThrottled,
    /// Process is throttled: it was queued, and the limiter resumes it
    /// when it admits it.
    Throttled,
}

/// Tracks resource consumption of rate-limited processes and pauses new ones
/// when the budget (CPU cores or memory) is exhausted.
pub struct Limiter {
    /// Total resource budget.
    total: ResourceProfile,
    /// Resources held by currently running throttled processes.
    active: HashMap<i32, ActiveEntry>,
    /// Queue of processes waiting for resources.
    paused: VecDeque<PausedEntry>,
    /// Currently available (free) resources.
    free: ResourceProfile,
}

impl View for Limiter {
    type V = LimiterState;

    closed spec fn view(&self) -> LimiterState {
        LimiterState {
            total: self.total@,
            free: self.free@,
            active: self.active@.map_values(|e: ActiveEntry| e@),
            paused: self.paused@.map_values(|e: PausedEntry| e@),
        }
    }
}

impl Limiter {
    /// What holds of every limiter, whatever it was told.
    pub open spec fn inv(&self) -> bool {
        self@.valid()
    }

    /// Whether the budget is conserved and no process is tracked twice.
    pub open spec fn consistent(&self) -> bool {
        self@.consistent()
    }

    /// How the fields show in the view: the budgets fit the machine's
    /// integers, and the map and the queue keep their shape.
    proof fn lemma_view(&self)
        ensures
            self@.total.representable(),
            self@.free.representable(),
            self@.active.dom() == self.active@.dom(),
            self@.active.dom().finite(),
            self@.paused.len() == self.paused@.len(),
            self@.idle() == self.active@.is_empty(),
    {
        assert(self@.active.dom() =~= self.active@.dom());
    }

    pub fn new(total: ResourceProfile) -> (limiter: Self)
        requires
            total@.is_demand(),
        ensures
            limiter@ == LimiterState::initial(total@),
            limiter.inv(),
            limiter.consistent(),
    {
        let limiter = Self { total, active: HashMap::new(), paused: VecDeque::new(), free: total };
        proof {
            assert(limiter@.active =~= Map::<i32, Claim>::empty());
            assert(limiter@.paused =~= Seq::<Waiting>::empty());
            lemma_initial_consistent(total@);
        }
        limiter
    }

    /// Total resource budget.
    pub fn total(&self) -> (total: ResourceProfile)
        ensures
            total@ == self@.total,
    {
        self.total
    }

    /// Currently available (free) resources.
    pub fn free(&self) -> (free: ResourceProfile)
        ensures
            free@ == self@.free,
    {
        self.free
    }

    /// Number of admitted processes.
    pub fn active_count(&self) -> (count: usize)
        ensures
            count == self@.active.dom().len(),
    {
        proof {
            self.lemma_view();
        }
        self.active.len()
    }

    /// Number of queued processes.
    pub fn paused_count(&self) -> (count: usize)
        ensures
            count == self@.paused.len(),
    {
        self.paused.len()
    }

    /// Whether `pid` is admitted.
    pub fn is_active(&self, pid: i32) -> (found: bool)
        ensures
            found == self@.active.contains_key(pid),
    {
        proof {
            self.lemma_view();
        }
        self.active.contains_key(&pid)
    }

    /// Whether `pid` is queued.
    pub fn is_paused(&self, pid: i32) -> (found: bool)
        ensures
            found == self@.is_paused(pid),
    {
        let mut i: usize = 0;
        while i < self.paused.len()
            invariant
                i <= self.paused.len(),
                forall|k: int| 0 <= k < i ==> (#[trigger] self@.paused[k]).pid != pid,
            decreases self.paused.len() - i,
        {
            if self.paused[i].pid == pid {
                assert(self@.paused[i as int].pid == pid);
                return true;
            }
            i += 1;
        }
        false
    }

    /// The queued process ids, in arrival order.
    pub fn paused_pids(&self) -> (pids: Vec<i32>)
        ensures
            pids@ == self@.paused.map_values(|w: Waiting| w.pid),
    {
        let mut pids: Vec<i32> = Vec::new();
        let mut i: usize = 0;
        while i < self.paused.len()
            invariant
                i <= self.paused.len(),
                pids@ == self@.paused.take(i as int).map_values(|w: Waiting| w.pid),
            decreases self.paused.len() - i,
        {
            pids.push(self.paused[i].pid);
            assert(self@.paused.take(i + 1) == self@.paused.take(i as int).push(
                self@.paused[i as int],
            ));
            i += 1;
        }
        assert(self@.paused.take(i as int) == self@.paused);
        pids
    }

    /// Called on exec of a process. If the process is not throttled, nothing
    /// changes. If it is, it is queued behind the processes that already
    /// wait, and the queue is drained: the process is resumed through `ctl`
    /// at once if it is the head and fits, and stays stopped otherwise.
    ///
    /// The resource profile is calculated here and persisted for the lifecycle
    /// of the process in the limiter.
    pub fn on_exec<C: ProcessControl>(&mut self, ctl: &mut C, pid: i32, args: &[String]) -> (result:
        OnExecResult)
        requires
            old(self).inv(),
        ensures
            final(self).inv(),
            match profile_of(args.deep_view()) {
                None => result == OnExecResult::NotThrottled && final(self)@ == old(self)@,
                Some(demand) => result == OnExecResult::Throttled && old(self)@.enqueue(
                    Waiting { pid, name: args.deep_view()[0], demand },
                ).drains_to(final(self)@),
            },
            old(self).consistent() && !old(self)@.tracks(pid) ==> final(self).consistent(),
            old(self)@.settled() || result == OnExecResult::Throttled ==> final(self)@.settled(),
    {
        match profile_for(args) {
            Some(profile) => {
                let name = args[0].clone();
                let ghost waiting = Waiting { pid, name: args.deep_view()[0], demand: profile@ };
                proof {
                    lemma_profile_is_demand(args.deep_view());
                    assert(name@ == args.deep_view()[0]);
                }
                self.paused.push_back(PausedEntry { pid, name, profile });
                proof {
                    assert(self@.paused =~= old(self)@.paused.push(waiting));
                    assert(self@ == old(self)@.enqueue(waiting));
                    assert(self.inv()) by {
                        assert forall|i: int| 0 <= i < self@.paused.len() implies (
                        #[trigger] self@.paused[i]).demand.is_demand() by {
                            if i < old(self)@.paused.len() {
                                assert(self@.paused[i] == old(self)@.paused[i]);
                            }
                        }
                    }
                    if old(self).consistent() && !old(self)@.tracks(pid) {
                        lemma_enqueue_consistent(old(self)@, waiting);
                    }
                }
                self.try_resume_paused(ctl);
                OnExecResult::Throttled
            },
            None => OnExecResult::NotThrottled,
        }
    }

    /// Called when any process exits. If it was admitted, free its resources
    /// and try to resume waiting processes. If it was queued, it leaves the
    /// queue. A process that is not tracked changes nothing.
    pub fn on_exit<C: ProcessControl>(&mut self, ctl: &mut C, pid: i32)
        requires
            old(self).inv(),
        ensures
            final(self).inv(),
            old(self)@.exits_to(pid, final(self)@),
            old(self).consistent() ==> final(self).consistent(),
            !old(self)@.tracks(pid) ==> final(self)@ == old(self)@,
            !old(self)@.is_paused(pid) && (old(self)@.settled() || old(self)@.active.contains_key(
                pid,
            )) ==> final(self)@.settled(),
    {
        proof {
            lemma_forget_valid(old(self)@, pid);
        }
        if self.release(pid) {
            let ghost released = self@;
            proof {
                if old(self).consistent() {
                    lemma_release_consistent(old(self)@, pid);
                }
            }
            self.try_resume_paused(ctl);
            proof {
                if !old(self)@.is_paused(pid) {
                    let outcomes = choose|outcomes: Seq<bool>| #[trigger]
                        released.drains(outcomes) && self@ == released.drain(outcomes);
                    assert(!released.is_paused(pid));
                    lemma_drain_queues_nothing(released, outcomes, pid);
                }
            }
        }
        // Remove from paused too in case it exited before being resumed.
        proof {
            lemma_forget_valid(self@, pid);
        }
        self.forget(pid);
    }

    /// Whether the given profile fits within remaining resources.
    /// Failsafe: if nothing else is active, it always fits (deadlock prevention).
    fn fits(&self, profile: &ResourceProfile) -> (ok: bool)
        ensures
            ok == self@.fits(profile@),
    {
        proof {
            self.lemma_view();
        }
        if profile.has_free_resources(&self.free) {
            true
        } else if self.active.is_empty() {
            true
        } else {
            false
        }
    }

    /// Takes `profile` out of the free budget and records it for `pid`.
    fn grant(&mut self, pid: i32, name: String, profile: ResourceProfile)
        requires
            old(self).inv(),
            profile@.is_demand(),
            old(self)@.fits(profile@),
        ensures
            final(self).inv(),
            final(self)@ == old(self)@.grant(pid, Claim { name: name@, demand: profile@ }),
    {
        let ghost claim = Claim { name: name@, demand: profile@ };
        proof {
            self.lemma_view();
            lemma_grant_valid(self@, pid, claim);
            if !profile@.fits_within(self@.free) {
                lemma_held_empty(self@.active);
            }
        }
        self.free = self.free - profile;
        self.active.insert(pid, ActiveEntry { name, profile });
        proof {
            assert(self@.active =~= old(self)@.active.insert(pid, claim));
        }
    }

    /// Gives what `pid` holds, if anything, back to the free budget.
    fn release(&mut self, pid: i32) -> (released: bool)
        requires
            old(self).inv(),
        ensures
            final(self).inv(),
            final(self)@ == old(self)@.release(pid),
            released == old(self)@.active.contains_key(pid),
    {
        proof {
            self.lemma_view();
            lemma_release_valid(self@, pid);
        }
        match self.active.remove(&pid) {
            Some(entry) => {
                proof {
                    assert(old(self)@.active[pid] == entry@);
                    lemma_held_remove(old(self)@.active, pid);
                    assert forall|p: i32| old(self)@.active.remove(pid).contains_key(p) implies (
                    #[trigger] old(self)@.active.remove(pid)[p]).demand.is_demand() by {
                        assert(old(self)@.active.contains_key(p));
                    }
                    lemma_held_is_demand(old(self)@.active.remove(pid));
                }
                self.free = self.free + entry.profile;
                proof {
                    assert(self@.active =~= old(self)@.active.remove(pid));
                }
                true
            },
            None => {
                proof {
                    assert(self@.active =~= old(self)@.active);
                }
                false
            },
        }
    }

    /// Takes every entry of `pid` out of the queue.
    fn forget(&mut self, pid: i32)
        ensures
            final(self)@ == old(self)@.forget(pid),
    {
        let ghost before = self@.paused;
        let ghost keep = |w: Waiting| w.pid != pid;
        let mut kept: VecDeque<PausedEntry> = VecDeque::new();
        proof {
            reveal(Seq::filter);
            assert(before.take(0) =~= Seq::<Waiting>::empty());
            assert(self@.paused.skip(0) =~= before);
        }
        while self.paused.len() > 0
            invariant
                self.paused@.len() <= before.len(),
                self@.paused == before.skip(before.len() - self.paused@.len()),
                kept@.map_values(|e: PausedEntry| e@) == before.take(
                    before.len() - self.paused@.len(),
                ).filter(keep),
                self@.total == old(self)@.total,
                self@.free == old(self)@.free,
                self@.active == old(self)@.active,
                keep == |w: Waiting| w.pid != pid,
            decreases self.paused@.len(),
        {
            let ghost done = before.len() - self.paused@.len();
            let ghost queue = self@.paused;
            let entry = self.paused.pop_front().unwrap();
            proof {
                reveal(Seq::filter);
                assert(entry@ == queue[0]);
                assert(queue[0] == before[done]);
                assert(self@.paused =~= queue.drop_first());
                assert(queue.drop_first() =~= before.skip(done + 1));
                assert(before.take(done + 1).drop_last() =~= before.take(done));
                assert(before.take(done + 1).last() == before[done]);
            }
            if entry.pid != pid {
                let ghost shown = kept@.map_values(|e: PausedEntry| e@);
                kept.push_back(entry);
                proof {
                    assert(kept@.map_values(|e: PausedEntry| e@) =~= shown.push(entry@));
                }
            }
        }
        proof {
            assert(before.take(before.len() as int) =~= before);
        }
        self.paused = kept;
    }

    /// Takes the head of the queue and admits it, if the queue has a head
    /// and it fits, and says which process that was. The caller owes the
    /// process a continue, and [`Limiter::confirm`] what came of it.
    pub fn grant_head(&mut self) -> (granted: Option<i32>)
        requires
            old(self).inv(),
        ensures
            final(self).inv(),
            match granted {
                Some(pid) => {
                    &&& old(self)@.head_ready()
                    &&& pid == old(self)@.paused[0].pid
                    &&& final(self)@ == old(self)@.settle_head(true)
                },
                None => !old(self)@.head_ready() && final(self)@ == old(self)@,
            },
    {
        if self.paused.len() == 0 || !self.fits(&self.paused[0].profile) {
            return None;
        }
        let ghost before = self@;
        let entry = self.paused.pop_front().unwrap();
        let pid = entry.pid;
        proof {
            assert(entry@ == before.paused[0]);
            assert(self@.paused =~= before.paused.drop_first());
            assert(self@ == before.pop());
            assert(self.inv()) by {
                assert forall|i: int| 0 <= i < self@.paused.len() implies (
                #[trigger] self@.paused[i]).demand.is_demand() by {
                    assert(self@.paused[i] == before.paused[i + 1]);
                }
            }
        }
        self.grant(pid, entry.name, entry.profile);
        Some(pid)
    }

    /// Takes note of what came of the continue that was issued for `pid`
    /// after its admission: where it failed, the admission is rolled back,
    /// as if `pid` had never been admitted.
    pub fn confirm(&mut self, pid: i32, resumed: bool)
        requires
            old(self).inv(),
        ensures
            final(self).inv(),
            final(self)@ == if resumed {
                old(self)@
            } else {
                old(self)@.release(pid)
            },
    {
        if !resumed {
            self.release(pid);
        }
    }

    /// Serves the queue from its head for as long as the head fits: each
    /// head is taken out and admitted, and a continue is issued for it
    /// through `ctl`. Where the continue fails, the admission is rolled
    /// back and the next head is tried. The first head that does not fit
    /// stops the drain: nothing behind it is looked at.
    fn try_resume_paused<C: ProcessControl>(&mut self, ctl: &mut C)
        requires
            old(self).inv(),
        ensures
            final(self).inv(),
            old(self)@.drains_to(final(self)@),
            old(self).consistent() ==> final(self).consistent(),
    {
        let ghost start = self@;
        let ghost mut outcomes: Seq<bool> = Seq::empty();
        loop
            invariant
                self.inv(),
                start.admissible(outcomes),
                self@ == start.drain(outcomes),
            ensures
                self.inv(),
                start.drains(outcomes),
                self@ == start.drain(outcomes),
            decreases self@.paused.len(),
        {
            let pid = match self.grant_head() {
                Some(pid) => pid,
                None => {
                    break ;
                },
            };
            let resumed = ctl.cont(pid, None).is_ok();
            self.confirm(pid, resumed);
            proof {
                assert(outcomes.push(resumed).drop_last() =~= outcomes);
                outcomes = outcomes.push(resumed);
            }
        }
        proof {
            if old(self).consistent() {
                lemma_drain_consistent(start, outcomes);
            }
        }
    }
}

} // verus!
