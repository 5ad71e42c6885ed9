//! What the transitions of the limiter preserve.
//!
//! Every transition keeps a state valid. As long as no process id is
//! announced while it is still tracked, the transitions also conserve the
//! budget and keep the admitted and the queued processes apart. The queue
//! is served strictly in arrival order.

use vstd::prelude::*;
use crate::model::{held, Claim, LimiterState, Waiting};
use crate::resources::resource_profile::Budget;

verus! {

/// Nothing is held where nothing is admitted.
pub proof fn lemma_held_empty(active: Map<i32, Claim>)
    requires
        active.dom() =~= Set::empty(),
    ensures
        held(active) == Budget::zero(),
{
}

/// What is held is the claim of any one process plus what the others hold.
pub proof fn lemma_held_remove(active: Map<i32, Claim>, pid: i32)
    requires
        active.dom().finite(),
        active.contains_key(pid),
    ensures
        held(active) == active[pid].demand.plus(held(active.remove(pid))),
    decreases active.dom().len(),
{
    let chosen = active.dom().choose();
    if chosen != pid {
        lemma_held_remove(active.remove(chosen), pid);
        lemma_held_remove(active.remove(pid), chosen);
        assert(active.remove(chosen).remove(pid) =~= active.remove(pid).remove(chosen));
    }
}

/// Recording a claim for a process replaces what it held before.
pub proof fn lemma_held_insert(active: Map<i32, Claim>, pid: i32, claim: Claim)
    requires
        active.dom().finite(),
    ensures
        held(active.insert(pid, claim)) == claim.demand.plus(held(active.remove(pid))),
{
    lemma_held_remove(active.insert(pid, claim), pid);
    assert(active.insert(pid, claim).remove(pid) =~= active.remove(pid));
}

/// Non-negative claims add up to a non-negative amount.
pub proof fn lemma_held_is_demand(active: Map<i32, Claim>)
    requires
        active.dom().finite(),
        forall|pid: i32| active.contains_key(pid) ==> (#[trigger] active[pid]).demand.is_demand(),
    ensures
        held(active).is_demand(),
    decreases active.dom().len(),
{
    if active.dom().len() != 0 {
        let chosen = active.dom().choose();
        lemma_held_is_demand(active.remove(chosen));
    }
}

/// A fresh limiter is consistent.
pub proof fn lemma_initial_consistent(total: Budget)
    requires
        total.is_demand(),
    ensures
        LimiterState::initial(total).consistent(),
{
    lemma_held_empty(Map::<i32, Claim>::empty());
}

/// Granting a claim that fits keeps the state valid.
pub proof fn lemma_grant_valid(s: LimiterState, pid: i32, claim: Claim)
    requires
        s.valid(),
        claim.demand.is_demand(),
        s.fits(claim.demand),
    ensures
        s.grant(pid, claim).valid(),
{
    let t = s.grant(pid, claim);
    lemma_held_insert(s.active, pid, claim);
    if s.active.contains_key(pid) {
        lemma_held_remove(s.active, pid);
    } else {
        assert(s.active.remove(pid) =~= s.active);
    }
    assert forall|p: i32| t.active.contains_key(p) implies (#[trigger] t.active[p]).demand.is_demand() by {
        if p != pid {
            assert(s.active.contains_key(p));
        }
    }
    lemma_held_is_demand(t.active);
    if s.idle() {
        lemma_held_empty(s.active);
    }
}

/// Releasing a claim keeps the state valid and leaves unchanged what is
/// accounted for.
pub proof fn lemma_release_valid(s: LimiterState, pid: i32)
    requires
        s.valid(),
    ensures
        s.release(pid).valid(),
        s.release(pid).accounted() == s.accounted(),
{
    if s.active.contains_key(pid) {
        lemma_held_remove(s.active, pid);
        let t = s.release(pid);
        assert forall|p: i32| t.active.contains_key(p) implies (#[trigger] t.active[p]).demand.is_demand() by {
            assert(s.active.contains_key(p));
        }
    }
}

/// Settling a ready head keeps the state valid.
pub proof fn lemma_settle_valid(s: LimiterState, resumed: bool)
    requires
        s.valid(),
        s.head_ready(),
    ensures
        s.settle_head(resumed).valid(),
{
    let head = s.paused[0];
    let popped = s.pop();
    assert forall|i: int| 0 <= i < popped.paused.len() implies (#[trigger] popped.paused[i]).demand.is_demand() by {
        assert(popped.paused[i] == s.paused[i + 1]);
    }
    assert(popped.valid());
    lemma_grant_valid(popped, head.pid, head.claim());
    lemma_release_valid(popped.grant(head.pid, head.claim()), head.pid);
}

/// Draining keeps the state valid.
pub proof fn lemma_drain_valid(s: LimiterState, outcomes: Seq<bool>)
    requires
        s.valid(),
        s.admissible(outcomes),
    ensures
        s.drain(outcomes).valid(),
    decreases outcomes.len(),
{
    if outcomes.len() > 0 {
        lemma_drain_valid(s, outcomes.drop_last());
        lemma_settle_valid(s.drain(outcomes.drop_last()), outcomes.last());
    }
}

/// The queue is served from its head: after a drain, what is left of the
/// queue is what stood behind the entries that were settled, in the same
/// order, and nothing else of the state depends on the entries behind.
pub proof fn lemma_drain_queue(s: LimiterState, outcomes: Seq<bool>)
    requires
        s.admissible(outcomes),
    ensures
        outcomes.len() <= s.paused.len(),
        s.drain(outcomes).paused == s.paused.skip(outcomes.len() as int),
        s.drain(outcomes).total == s.total,
    decreases outcomes.len(),
{
    if outcomes.len() > 0 {
        lemma_drain_queue(s, outcomes.drop_last());
        let before = s.drain(outcomes.drop_last());
        assert(before.paused.drop_first() == s.paused.skip(outcomes.len() as int));
    } else {
        assert(s.paused.skip(0) == s.paused);
    }
}

/// First in, first out: the process settled at step `k` of a drain is the
/// one at position `k` of the queue, so of two queued processes the one
/// that arrived first is settled first, and a process is settled only
/// after every process that was queued before it.
pub proof fn lemma_drain_in_arrival_order(s: LimiterState, outcomes: Seq<bool>, k: int)
    requires
        s.admissible(outcomes),
        0 <= k < outcomes.len(),
    ensures
        k < s.paused.len(),
        s.admissible(outcomes.take(k)),
        s.drain(outcomes.take(k)).head_ready(),
        s.drain(outcomes.take(k)).paused[0] == s.paused[k],
        s.drain(outcomes.take(k + 1)) == s.drain(outcomes.take(k)).settle_head(outcomes[k]),
    decreases outcomes.len(),
{
    if k == outcomes.len() - 1 {
        assert(outcomes.take(k) == outcomes.drop_last());
        assert(outcomes.take(k + 1) == outcomes);
        lemma_drain_queue(s, outcomes.drop_last());
    } else {
        lemma_drain_in_arrival_order(s, outcomes.drop_last(), k);
        assert(outcomes.drop_last().take(k) == outcomes.take(k));
        assert(outcomes.drop_last().take(k + 1) == outcomes.take(k + 1));
    }
}

/// First in, first out. Of two queued processes, the one that arrived
/// first is the first to be taken from the queue: if a drain took the
/// later one, at step `j`, it took the earlier one before, at step `i`,
/// and the later one still waited then.
pub proof fn lemma_first_in_first_out(s: LimiterState, outcomes: Seq<bool>, i: int, j: int)
    requires
        s.admissible(outcomes),
        0 <= i < j < outcomes.len(),
    ensures
        j < s.paused.len(),
        s.drain(outcomes.take(i)).paused[0] == s.paused[i],
        s.drain(outcomes.take(i + 1)).paused[j - i - 1] == s.paused[j],
        s.drain(outcomes.take(j)).paused[0] == s.paused[j],
{
    lemma_drain_in_arrival_order(s, outcomes, i);
    lemma_drain_in_arrival_order(s, outcomes, j);
    assert(outcomes.take(i + 1).drop_last() == outcomes.take(i));
    lemma_drain_in_arrival_order(s, outcomes.take(i + 1), i);
    assert(outcomes.take(i + 1).take(i + 1) == outcomes.take(i + 1));
    assert(outcomes.take(i + 1).take(i) == outcomes.take(i));
    lemma_drain_queue(s, outcomes.take(i + 1));
}

/// A drain queues nothing: a process that does not wait before it does
/// not wait after it.
pub proof fn lemma_drain_queues_nothing(s: LimiterState, outcomes: Seq<bool>, pid: i32)
    requires
        s.admissible(outcomes),
        !s.is_paused(pid),
    ensures
        !s.drain(outcomes).is_paused(pid),
{
    lemma_drain_queue(s, outcomes);
    let t = s.drain(outcomes);
    if t.is_paused(pid) {
        let i = choose|i: int| 0 <= i < t.paused.len() && (#[trigger] t.paused[i]).pid == pid;
        assert(s.paused[i + outcomes.len()].pid == pid);
    }
}

/// Queueing a process that is not tracked keeps the state consistent.
pub proof fn lemma_enqueue_consistent(s: LimiterState, waiting: Waiting)
    requires
        s.consistent(),
        !s.tracks(waiting.pid),
        waiting.demand.is_demand(),
    ensures
        s.enqueue(waiting).consistent(),
{
    let t = s.enqueue(waiting);
    assert forall|i: int| 0 <= i < t.paused.len() implies (#[trigger] t.paused[i]).demand.is_demand() by {
        if i < s.paused.len() {
            assert(t.paused[i] == s.paused[i]);
        }
    }
    assert forall|i: int| 0 <= i < t.paused.len() implies !t.active.contains_key(
        (#[trigger] t.paused[i]).pid,
    ) by {
        if i < s.paused.len() {
            assert(t.paused[i] == s.paused[i]);
        }
    }
    assert forall|i: int, j: int| 0 <= i < j < t.paused.len() implies (#[trigger] t.paused[i]).pid
        != (#[trigger] t.paused[j]).pid by {
        assert(t.paused[i] == s.paused[i]);
        if j < s.paused.len() {
            assert(t.paused[j] == s.paused[j]);
        }
    }
}

/// Settling a ready head keeps the state consistent.
pub proof fn lemma_settle_consistent(s: LimiterState, resumed: bool)
    requires
        s.consistent(),
        s.head_ready(),
    ensures
        s.settle_head(resumed).consistent(),
{
    lemma_settle_valid(s, resumed);
    let head = s.paused[0];
    let popped = s.pop();
    let granted = popped.grant(head.pid, head.claim());
    let t = s.settle_head(resumed);
    lemma_held_insert(s.active, head.pid, head.claim());
    assert(s.active.remove(head.pid) =~= s.active);
    assert(granted.accounted() == s.total);
    if !resumed {
        assert(popped.valid()) by {
            assert forall|i: int| 0 <= i < popped.paused.len() implies (
            #[trigger] popped.paused[i]).demand.is_demand() by {
                assert(popped.paused[i] == s.paused[i + 1]);
            }
        }
        lemma_grant_valid(popped, head.pid, head.claim());
        lemma_release_valid(granted, head.pid);
    }
    assert forall|i: int| 0 <= i < t.paused.len() implies !t.active.contains_key(
        (#[trigger] t.paused[i]).pid,
    ) by {
        assert(t.paused[i] == s.paused[i + 1]);
    }
    assert forall|i: int, j: int| 0 <= i < j < t.paused.len() implies (#[trigger] t.paused[i]).pid
        != (#[trigger] t.paused[j]).pid by {
        assert(t.paused[i] == s.paused[i + 1]);
        assert(t.paused[j] == s.paused[j + 1]);
    }
}

/// Draining keeps the state consistent.
pub proof fn lemma_drain_consistent(s: LimiterState, outcomes: Seq<bool>)
    requires
        s.consistent(),
        s.admissible(outcomes),
    ensures
        s.drain(outcomes).consistent(),
    decreases outcomes.len(),
{
    if outcomes.len() > 0 {
        lemma_drain_consistent(s, outcomes.drop_last());
        lemma_settle_consistent(s.drain(outcomes.drop_last()), outcomes.last());
    }
}

/// Releasing a claim keeps the state consistent.
pub proof fn lemma_release_consistent(s: LimiterState, pid: i32)
    requires
        s.consistent(),
    ensures
        s.release(pid).consistent(),
{
    lemma_release_valid(s, pid);
}

/// What is left of a queue from which the entries of `pid` were taken:
/// entries of the queue, none of them of `pid`, in their old order.
pub proof fn lemma_forget_queue(paused: Seq<Waiting>, pid: i32)
    ensures
        ({
            let kept = paused.filter(|w: Waiting| w.pid != pid);
            &&& kept.len() <= paused.len()
            &&& forall|i: int| 0 <= i < kept.len() ==> (#[trigger] kept[i]).pid != pid
            &&& forall|i: int| 0 <= i < kept.len() ==> paused.contains(#[trigger] kept[i])
            &&& (forall|i: int, j: int|
                0 <= i < j < paused.len() ==> (#[trigger] paused[i]).pid != (
                #[trigger] paused[j]).pid) ==> (forall|i: int, j: int|
                0 <= i < j < kept.len() ==> (#[trigger] kept[i]).pid != (#[trigger] kept[j]).pid)
            &&& (forall|i: int| 0 <= i < paused.len() ==> (#[trigger] paused[i]).pid != pid)
                ==> kept == paused
        }),
    decreases paused.len(),
{
    reveal(Seq::filter);
    let pred = |w: Waiting| w.pid != pid;
    let kept = paused.filter(pred);
    if paused.len() > 0 {
        let front = paused.drop_last();
        let front_kept = front.filter(pred);
        lemma_forget_queue(front, pid);
        assert forall|i: int| 0 <= i < kept.len() implies paused.contains(#[trigger] kept[i]) by {
            if i < front_kept.len() {
                assert(front.contains(front_kept[i]));
                let k = choose|k: int| 0 <= k < front.len() && front[k] == front_kept[i];
                assert(paused[k] == kept[i]);
            } else {
                assert(paused[paused.len() - 1] == kept[i]);
            }
        }
        if forall|i: int, j: int|
            0 <= i < j < paused.len() ==> (#[trigger] paused[i]).pid != (#[trigger] paused[j]).pid {
            assert forall|i: int, j: int| 0 <= i < j < front.len() implies (#[trigger] front[i]).pid
                != (#[trigger] front[j]).pid by {
                assert(front[i] == paused[i]);
                assert(front[j] == paused[j]);
            }
            assert forall|i: int, j: int| 0 <= i < j < kept.len() implies (#[trigger] kept[i]).pid
                != (#[trigger] kept[j]).pid by {
                if j == front_kept.len() {
                    assert(front.contains(front_kept[i]));
                    let k = choose|k: int| 0 <= k < front.len() && front[k] == front_kept[i];
                    assert(paused[k] == kept[i]);
                    assert(paused[paused.len() - 1] == kept[j]);
                }
            }
        }
        if forall|i: int| 0 <= i < paused.len() ==> (#[trigger] paused[i]).pid != pid {
            assert forall|i: int| 0 <= i < front.len() implies (#[trigger] front[i]).pid != pid by {
                assert(front[i] == paused[i]);
            }
            assert(paused[paused.len() - 1].pid != pid);
            assert(kept == paused);
        }
    }
}

/// Taking a process out of the queue leaves the others in their order:
/// of two entries of other processes, the one that stood first in the
/// queue stands first in what is left.
pub proof fn lemma_forget_keeps_order(paused: Seq<Waiting>, pid: i32, i: int, j: int)
    requires
        0 <= i < j < paused.len(),
        paused[i].pid != pid,
        paused[j].pid != pid,
    ensures
        ({
            let kept = paused.filter(|w: Waiting| w.pid != pid);
            exists|a: int, b: int|
                #![trigger kept[a], kept[b]]
                0 <= a < b < kept.len() && kept[a] == paused[i] && kept[b] == paused[j]
        }),
    decreases paused.len(),
{
    reveal(Seq::filter);
    let keep = |w: Waiting| w.pid != pid;
    let kept = paused.filter(keep);
    let front = paused.drop_last();
    let front_kept = front.filter(keep);
    assert(front[i] == paused[i]);
    if j == paused.len() - 1 {
        front.lemma_filter_contains(keep, i);
        let a = choose|a: int| 0 <= a < front_kept.len() && front_kept[a] == front[i];
        let b = front_kept.len() as int;
        assert(kept[a] == paused[i] && kept[b] == paused[j]);
    } else {
        assert(front[j] == paused[j]);
        lemma_forget_keeps_order(front, pid, i, j);
        let (a, b) = choose|a: int, b: int|
            #![trigger front_kept[a], front_kept[b]]
            0 <= a < b < front_kept.len() && front_kept[a] == front[i] && front_kept[b] == front[j];
        assert(kept[a] == paused[i] && kept[b] == paused[j]);
    }
}

/// Taking a process out of the queue keeps the state valid, and
/// consistent if it was.
pub proof fn lemma_forget_valid(s: LimiterState, pid: i32)
    requires
        s.valid(),
    ensures
        s.forget(pid).valid(),
        s.consistent() ==> s.forget(pid).consistent(),
        !s.forget(pid).is_paused(pid),
        !s.is_paused(pid) ==> s.forget(pid) == s,
{
    lemma_forget_queue(s.paused, pid);
    let t = s.forget(pid);
    assert forall|i: int| 0 <= i < t.paused.len() implies (#[trigger] t.paused[i]).demand.is_demand() by {
        assert(s.paused.contains(t.paused[i]));
    }
    if s.consistent() {
        assert forall|i: int| 0 <= i < t.paused.len() implies !t.active.contains_key(
            (#[trigger] t.paused[i]).pid,
        ) by {
            assert(s.paused.contains(t.paused[i]));
        }
    }
}

/// Conservation and disjointness across an exec: if a consistent limiter
/// is told of a process that it does not track, it is consistent after
/// the process was queued and the queue drained.
pub proof fn lemma_exec_consistent(s: LimiterState, waiting: Waiting, post: LimiterState)
    requires
        s.consistent(),
        !s.tracks(waiting.pid),
        waiting.demand.is_demand(),
        s.enqueue(waiting).drains_to(post),
    ensures
        post.consistent(),
{
    lemma_enqueue_consistent(s, waiting);
    let outcomes = choose|outcomes: Seq<bool>| #[trigger]
        s.enqueue(waiting).drains(outcomes) && post == s.enqueue(waiting).drain(outcomes);
    lemma_drain_consistent(s.enqueue(waiting), outcomes);
}

/// Conservation and disjointness across an exit: a consistent limiter is
/// consistent after any process has exited.
pub proof fn lemma_exit_consistent(s: LimiterState, pid: i32, post: LimiterState)
    requires
        s.consistent(),
        s.exits_to(pid, post),
    ensures
        post.consistent(),
{
    if s.active.contains_key(pid) {
        let outcomes = choose|outcomes: Seq<bool>| #[trigger]
            s.release(pid).drains(outcomes) && post == s.release(pid).drain(outcomes).forget(pid);
        lemma_release_consistent(s, pid);
        lemma_drain_consistent(s.release(pid), outcomes);
        lemma_forget_valid(s.release(pid).drain(outcomes), pid);
    } else {
        lemma_forget_valid(s, pid);
    }
}

/// The exit of a process that is not tracked changes nothing, and the
/// exit of a process that is only queued takes it out of the queue and
/// changes nothing else.
pub proof fn lemma_exit_of_unadmitted(s: LimiterState, pid: i32, post: LimiterState)
    requires
        s.valid(),
        !s.active.contains_key(pid),
        s.exits_to(pid, post),
    ensures
        !s.tracks(pid) ==> post == s,
        post.active == s.active,
        post.free == s.free,
        post.total == s.total,
        post.paused == s.paused.filter(|w: Waiting| w.pid != pid),
        !post.is_paused(pid),
{
    lemma_forget_valid(s, pid);
}

} // verus!
