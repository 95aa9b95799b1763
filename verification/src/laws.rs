//! What holds of every system that the operations can reach: mutual
//! exclusion, the bound on priority inversion, and the exact restoring of
//! the priority mask.

use vstd::prelude::*;
use crate::app::App;
use crate::mask::higher;
use crate::system::{raised, stacked, top_of, Frame, Held, System};

verus! {

/// Within one invocation the mask never falls while locks are taken: the
/// level under lock `k` is at most the level the invocation runs at, and
/// so is the ceiling of the resource that lock `k` holds.
pub proof fn lemma_lock_below_top(app: &App, frame: Frame, k: int)
    requires
        frame.chained(app),
        0 <= k < frame.held@.len(),
    ensures
        raised(app, frame.held@[k]) <= frame.top(app),
        app.ceiling_of(frame.held@[k].resource as int) <= frame.top(app),
        frame.base(app) <= frame.held@[k].saved,
    decreases frame.held@.len() - k, k,
{
    if k + 1 < frame.held@.len() {
        lemma_lock_below_top(app, frame, k + 1);
    }
    if k > 0 {
        lemma_saved_above_base(app, frame, k);
    }
}

/// Every lock of an invocation has saved a level that is at least the
/// task's own.
pub proof fn lemma_saved_above_base(app: &App, frame: Frame, k: int)
    requires
        frame.chained(app),
        0 <= k < frame.held@.len(),
    ensures
        frame.base(app) <= frame.held@[k].saved,
    decreases k,
{
    if k > 0 {
        lemma_saved_above_base(app, frame, k - 1);
    }
}

/// An invocation never runs below its task's level.
pub proof fn lemma_top_above_base(app: &App, frame: Frame)
    requires
        frame.chained(app),
    ensures
        frame.base(app) <= frame.top(app),
{
    if frame.held@.len() > 0 {
        lemma_saved_above_base(app, frame, frame.held@.len() - 1);
    }
}

/// Preemption only goes upwards: an invocation started at a level that
/// was above everything that any invocation below it had masked.
pub proof fn lemma_stack_rises(app: &App, frames: Seq<Frame>, i: int, j: int)
    requires
        stacked(app, frames),
        0 <= i < j < frames.len(),
    ensures
        frames[i].top(app) <= frames[j].resume,
        frames[j].resume < frames[j].base(app),
    decreases j,
{
    if i < j - 1 {
        lemma_stack_rises(app, frames, i, j - 1);
        lemma_top_above_base(app, frames[j - 1]);
    }
}

/// Mutual exclusion. In every state that the system can reach, no
/// resource is locked twice: two locks that are held at the same time,
/// by one invocation or by two, are locks of different resources. So the
/// time for which one access has the mask raised never overlaps that of
/// another access to the same resource.
pub proof fn lemma_mutual_exclusion<P, L>(s: &System<P, L>, i: int, k: int, j: int, m: int)
    requires
        s.wf(),
        0 <= i < s.stack().len(),
        0 <= k < s.stack()[i].held@.len(),
        0 <= j < s.stack().len(),
        0 <= m < s.stack()[j].held@.len(),
        i != j || k != m,
    ensures
        s.stack()[i].held@[k].resource != s.stack()[j].held@[m].resource,
{
    if i < j {
        lemma_held_apart(s.app(), s.stack(), i, k, j, m);
    } else if j < i {
        lemma_held_apart(s.app(), s.stack(), j, m, i, k);
    }
}

/// A lock of a lower invocation and a lock of a higher one are on
/// different resources: the higher one started above the ceiling of
/// whatever the lower one held, and so is no accessor of it.
pub proof fn lemma_held_apart(app: &App, frames: Seq<Frame>, i: int, k: int, j: int, m: int)
    requires
        app.valid(),
        stacked(app, frames),
        0 <= i < j < frames.len(),
        0 <= k < frames[i].held@.len(),
        0 <= m < frames[j].held@.len(),
    ensures
        frames[i].held@[k].resource != frames[j].held@[m].resource,
{
    let r = frames[i].held@[k].resource as int;
    let upper = frames[j];
    lemma_lock_below_top(app, frames[i], k);
    lemma_stack_rises(app, frames, i, j);
    if upper.held@[m].resource == r {
        app.lemma_ceiling_covers(upper.task as int, r);
    }
}

/// Task-local resources need no lock. Of all the invocations that have
/// started and not returned, at most one task owns the task-local
/// resource `r`: whatever else runs, preempts or is preempted, it cannot
/// touch `r`.
pub proof fn lemma_local_is_private<P, L>(s: &System<P, L>, r: usize, i: int, j: int)
    requires
        s.wf(),
        r < s.app().resources@.len(),
        s.app().resources@[r as int].task_local,
        0 <= i < s.stack().len(),
        0 <= j < s.stack().len(),
        s.app().tasks@[s.stack()[i].task as int].resources@.contains(r),
        s.app().tasks@[s.stack()[j].task as int].resources@.contains(r),
    ensures
        s.stack()[i].task == s.stack()[j].task,
{
    let app = s.app();
    let ti = s.stack()[i].task as int;
    let tj = s.stack()[j].task as int;
    let ki = choose|k: int|
        0 <= k < app.tasks@[ti].resources@.len() && app.tasks@[ti].resources@[k] == r;
    let kj = choose|k: int|
        0 <= k < app.tasks@[tj].resources@.len() && app.tasks@[tj].resources@[k] == r;
    app.lemma_local_has_one_owner(r as int, ti, ki, tj, kj);
}

/// Bounded inversion, first part. While an invocation of a task below
/// priority `p` keeps level `p` masked, every invocation above it belongs
/// to a task above `p`: of the tasks below `p`, at most one stands in the
/// way of a task of priority `p`.
pub proof fn lemma_one_blocker<P, L>(s: &System<P, L>, p: u8, i: int, j: int)
    requires
        s.wf(),
        0 <= i < j < s.stack().len(),
        s.stack()[i].base(s.app()) < p <= s.stack()[i].top(s.app()),
    ensures
        s.stack()[j].base(s.app()) > p,
{
    lemma_stack_rises(s.app(), s.stack(), i, j);
}

/// Bounded inversion, second part. An invocation of a task below priority
/// `p` that keeps level `p` masked holds a lock on a resource that some
/// task of level `p` or above may access: a task that shares nothing with
/// such tasks never stands in their way.
pub proof fn lemma_blocker_shares<P, L>(s: &System<P, L>, p: u8, i: int)
    requires
        s.wf(),
        0 <= i < s.stack().len(),
        s.stack()[i].base(s.app()) < p <= s.stack()[i].top(s.app()),
    ensures
        exists|k: int, t: int|
            {
                &&& 0 <= k < s.stack()[i].held@.len()
                &&& #[trigger] s.app().declared(
                    t,
                    (#[trigger] s.stack()[i].held@[k]).resource as int,
                )
                &&& s.app().level_of(t) >= p
            },
{
    let app = s.app();
    let frame = s.stack()[i];
    let n = frame.held@.len() as int;
    lemma_top_is_a_ceiling(app, frame, n - 1);
    let k = choose|k: int|
        0 <= k < n && app.ceiling_of(frame.held@[k].resource as int) == raised(
            app,
            frame.held@[n - 1],
        );
    let r = frame.held@[k].resource as int;
    let who = app.resources@[r].accessors@;
    app.lemma_highest_attained(who, who.len());
    let a = choose|a: int|
        0 <= a < who.len() && app.highest_level(who, who.len()) == #[trigger] app.level_of(
            who[a] as int,
        );
    assert(app.declared(who[a] as int, frame.held@[k].resource as int));
}

/// The level under a lock is the task's own level or the ceiling of one
/// of the resources locked so far.
pub proof fn lemma_top_is_a_ceiling(app: &App, frame: Frame, n: int)
    requires
        frame.chained(app),
        0 <= n < frame.held@.len(),
    ensures
        raised(app, frame.held@[n]) == frame.base(app) || exists|k: int|
            0 <= k <= n && app.ceiling_of((#[trigger] frame.held@[k]).resource as int) == raised(
                app,
                frame.held@[n],
            ),
    decreases n,
{
    let here = frame.held@[n];
    if raised(app, here) == here.saved {
        if n > 0 {
            lemma_top_is_a_ceiling(app, frame, n - 1);
        }
    }
}

/// The mask and the saved levels after a lock of a resource of ceiling
/// `ceiling`.
pub open spec fn after_lock(state: (u8, Seq<u8>), ceiling: u8) -> (u8, Seq<u8>) {
    (higher(state.0, ceiling), state.1.push(state.0))
}

/// The mask and the saved levels after the innermost lock is released.
pub open spec fn after_unlock(state: (u8, Seq<u8>)) -> (u8, Seq<u8>) {
    (state.1.last(), state.1.drop_last())
}

/// The mask and the saved levels after locks of the given ceilings, each
/// taken inside the one before.
pub open spec fn after_locks(state: (u8, Seq<u8>), ceilings: Seq<u8>) -> (u8, Seq<u8>)
    decreases ceilings.len(),
{
    if ceilings.len() == 0 {
        state
    } else {
        after_lock(after_locks(state, ceilings.drop_last()), ceilings.last())
    }
}

/// The mask and the saved levels after the `n` innermost locks are
/// released.
pub open spec fn after_unlocks(state: (u8, Seq<u8>), n: nat) -> (u8, Seq<u8>)
    decreases n,
{
    if n == 0 {
        state
    } else {
        after_unlocks(after_unlock(state), (n - 1) as nat)
    }
}

/// Idempotent mask restore. Take any number of locks, each inside the one
/// before, then release them all: the mask is exactly what it was before
/// the first lock, and so is the record of saved levels.
pub proof fn lemma_nested_restore(state: (u8, Seq<u8>), ceilings: Seq<u8>)
    ensures
        after_unlocks(after_locks(state, ceilings), ceilings.len()) == state,
    decreases ceilings.len(),
{
    if ceilings.len() > 0 {
        let inner = after_locks(state, ceilings.drop_last());
        let outer = after_lock(inner, ceilings.last());
        assert(after_unlock(outer).1 =~= inner.1);
        lemma_nested_restore(state, ceilings.drop_last());
    }
}

/// The levels that the locks `held` have saved, outermost first.
pub open spec fn saved_levels(held: Seq<Held>) -> Seq<u8> {
    Seq::new(held.len(), |k: int| held[k].saved)
}

/// Once the running invocation has released every lock, the mask is back
/// at the task's own level, which is where it stood before the first
/// lock: the outermost lock has saved exactly that level.
pub proof fn lemma_outermost_saved<P, L>(s: &System<P, L>)
    requires
        s.wf(),
        s.stack().len() > 0,
        s.stack().last().held@.len() > 0,
    ensures
        s.stack().last().held@[0].saved == s.stack().last().base(s.app()),
        after_unlocks(s.levels_kept(), s.stack().last().held@.len()).0 == s.stack().last().base(
            s.app(),
        ),
{
    lemma_unlocks_reach_first(s.levels_kept(), s.stack().last().held@.len());
}

/// Releasing every lock leaves the level that the outermost one saved.
pub proof fn lemma_unlocks_reach_first(state: (u8, Seq<u8>), n: nat)
    requires
        n == state.1.len(),
        n > 0,
    ensures
        after_unlocks(state, n).0 == state.1[0],
    decreases n,
{
    let next = after_unlock(state);
    if n > 1 {
        lemma_unlocks_reach_first(next, (n - 1) as nat);
    } else {
        assert(after_unlocks(next, 0) == next);
    }
}

} // verus!
