//! The running system: the priority mask, the stack of preempted
//! invocations with the locks they hold, the ready queues, the timer queue
//! and the late resources.
//!
//! The system decides; it runs no task body itself. Whoever drives it
//! reports events (an interrupt fired, the clock reads so much, the running
//! task locks, unlocks or returns) and asks which invocation starts next.

use vstd::prelude::*;
use crate::app::{App, ConfigError, TaskKind, lists};
use crate::context::{build, bundle_for, Bundle, Context, CriticalSection, Priority};
use crate::laws::{after_lock, after_unlock, saved_levels};
use crate::mask::higher;
use crate::ready::{Entry, ReadyQueue};
use crate::timer::{due, lemma_insert_sorted, lemma_parts_is_due, sorted, Timed, TimerQueue};

verus! {

/// How far initialization has come.
#[derive(Clone, Copy, Debug, PartialEq, Eq, Structural)]
pub enum Phase {
    /// `init` has not run yet.
    NotStarted,
    /// `init` runs: every interrupt is masked.
    Running,
    /// `init` has returned: the late resources are published and
    /// interrupts are enabled.
    Done,
}

/// Why `spawn` or `schedule` could not queue an invocation.
#[derive(Clone, Copy, Debug, PartialEq, Eq, Structural)]
pub enum CapacityError {
    /// The ready queue of the task's level has no free slot left.
    ReadyQueueFull,
    /// The timer queue is full.
    TimerQueueFull,
}

/// A lock that an invocation holds.
#[derive(Clone, Copy, Debug, PartialEq, Eq, Structural)]
pub struct Held {
    /// The resource that is locked.
    pub resource: usize,
    /// The mask level to put back when the lock is released.
    pub saved: u8,
}

/// An invocation that has started and not yet returned.
#[derive(Debug)]
pub struct Frame {
    /// The task that runs.
    pub task: usize,
    /// The mask level to put back when the invocation returns.
    pub resume: u8,
    /// The locks the invocation holds, outermost first.
    pub held: Vec<Held>,
}

/// An invocation that the dispatcher has just started.
#[derive(Debug)]
pub struct Invocation<P> {
    /// The task to run.
    pub task: usize,
    /// The payload of a software task; a hardware task has none.
    pub payload: Option<P>,
    /// The capability bundle for the task's body.
    pub context: Bundle,
}

/// The mask level while the lock `h` is held.
pub open spec fn raised(app: &App, h: Held) -> u8 {
    higher(h.saved, app.ceiling_of(h.resource as int))
}

impl Frame {
    /// The level the invocation runs at when it holds no lock.
    pub open spec fn base(&self, app: &App) -> u8 {
        app.tasks@[self.task as int].level()
    }

    /// The mask level while this invocation runs.
    pub open spec fn top(&self, app: &App) -> u8 {
        if self.held@.len() == 0 {
            self.base(app)
        } else {
            raised(app, self.held@.last())
        }
    }

    /// The invocation belongs to a task of `app`, it holds only shared
    /// resources that its task declares, each once, and every lock has
    /// saved the level that was masked when it was taken.
    pub open spec fn chained(&self, app: &App) -> bool {
        &&& self.task < app.tasks@.len()
        &&& !(app.tasks@[self.task as int].kind is Init)
        &&& self.held@.len() > 0 ==> self.held@[0].saved == self.base(app)
        &&& forall|k: int, m: int|
            0 <= k && m == k + 1 && m < self.held@.len() ==> (#[trigger] self.held@[m]).saved
                == raised(app, #[trigger] self.held@[k])
        &&& forall|k: int|
            0 <= k < self.held@.len() ==> app.lockable(
                self.task as int,
                (#[trigger] self.held@[k]).resource as int,
            )
        &&& forall|k: int, m: int|
            0 <= k < m < self.held@.len() ==> (#[trigger] self.held@[k]).resource != (
            #[trigger] self.held@[m]).resource
    }
}

/// The mask level while the topmost invocation of `frames` runs; zero
/// where nothing runs.
pub open spec fn top_of(app: &App, frames: Seq<Frame>) -> u8 {
    if frames.len() == 0 {
        0
    } else {
        frames.last().top(app)
    }
}

/// The stack of invocations is one that preemption can build: each frame
/// is chained, each started above the level that was masked at the time,
/// which it puts back when it returns, and `idle` runs only at the bottom.
pub open spec fn stacked(app: &App, frames: Seq<Frame>) -> bool {
    &&& forall|i: int| 0 <= i < frames.len() ==> (#[trigger] frames[i]).chained(app)
    &&& frames.len() > 0 ==> frames[0].resume == 0
    &&& forall|i: int, j: int|
        0 <= i && j == i + 1 && j < frames.len() ==> (#[trigger] frames[j]).resume == (
        #[trigger] frames[i]).top(app)
    &&& forall|i: int|
        0 <= i < frames.len() ==> {
            if app.tasks@[(#[trigger] frames[i]).task as int].kind is Idle {
                i == 0
            } else {
                frames[i].base(app) > frames[i].resume
            }
        }
}

/// How many entries of the timer queue will go to the ready queue of
/// level `p`.
pub open spec fn reserved<P>(app: &App, s: Seq<Timed<P>>, p: u8) -> nat
    decreases s.len(),
{
    if s.len() == 0 {
        0
    } else {
        reserved(app, s.drop_last(), p) + if app.level_of(s.last().task as int) == p {
            1nat
        } else {
            0nat
        }
    }
}

/// Putting an entry anywhere into the timer queue reserves one more slot
/// of its level and none of any other.
pub proof fn lemma_reserved_insert<P>(app: &App, s: Seq<Timed<P>>, i: int, e: Timed<P>, p: u8)
    requires
        0 <= i <= s.len(),
    ensures
        reserved(app, s.insert(i, e), p) == reserved(app, s, p) + if app.level_of(e.task as int)
            == p {
            1nat
        } else {
            0nat
        },
    decreases s.len(),
{
    if i == s.len() {
        assert(s.insert(i, e).drop_last() =~= s);
    } else {
        assert(s.insert(i, e).drop_last() =~= s.drop_last().insert(i, e));
        lemma_reserved_insert(app, s.drop_last(), i, e, p);
    }
}

/// Taking the first entry out of the timer queue frees the slot that it
/// had reserved.
pub proof fn lemma_reserved_skip<P>(app: &App, s: Seq<Timed<P>>, p: u8)
    requires
        s.len() > 0,
    ensures
        reserved(app, s, p) == reserved(app, s.skip(1), p) + if app.level_of(s[0].task as int)
            == p {
            1nat
        } else {
            0nat
        },
    decreases s.len(),
{
    if s.len() == 1 {
        assert(s.drop_last() =~= Seq::<Timed<P>>::empty());
        assert(s.skip(1) =~= Seq::<Timed<P>>::empty());
    } else {
        assert(s.skip(1).drop_last() =~= s.drop_last().skip(1));
        lemma_reserved_skip(app, s.drop_last(), p);
    }
}

/// The ready-queue entry that a timer-queue entry becomes when it is due.
pub open spec fn released<P>(e: Timed<P>) -> Entry<P> {
    Entry { task: e.task, payload: e.payload, instant: Some(e.instant) }
}

/// What the entries `s` of the timer queue add to the ready queue of
/// level `p` when they are moved, in their order.
pub open spec fn moved<P>(app: &App, s: Seq<Timed<P>>, p: u8) -> Seq<Entry<P>>
    decreases s.len(),
{
    if s.len() == 0 {
        Seq::empty()
    } else {
        let rest = moved(app, s.drop_last(), p);
        if app.level_of(s.last().task as int) == p {
            rest.push(released(s.last()))
        } else {
            rest
        }
    }
}

/// Turns a timer-queue entry that is due into a ready-queue entry.
fn released_entry<P>(e: Timed<P>) -> (entry: Entry<P>)
    ensures
        entry == released(e),
{
    Entry { task: e.task, payload: e.payload, instant: Some(e.instant) }
}

/// The running system.
pub struct System<P, L> {
    app: App,
    phase: Phase,
    late: Option<L>,
    mask: u8,
    frames: Vec<Frame>,
    pending: Vec<bool>,
    ready: Vec<ReadyQueue<P>>,
    timer: TimerQueue<P>,
}

impl<P, L> System<P, L> {
    /// The task and resource tables.
    pub closed spec fn app(&self) -> &App {
        &self.app
    }

    /// How far initialization has come.
    pub closed spec fn phase(&self) -> Phase {
        self.phase
    }

    /// The late resources, once they are published.
    pub closed spec fn late(&self) -> Option<L> {
        self.late
    }

    /// The masked level.
    pub closed spec fn mask(&self) -> u8 {
        self.mask
    }

    /// The invocations that have started and not returned, the running
    /// one last.
    pub closed spec fn stack(&self) -> Seq<Frame> {
        self.frames@
    }

    /// Which hardware tasks wait for their handler to start.
    pub closed spec fn pending(&self) -> Seq<bool> {
        self.pending@
    }

    /// The ready queues, one for each level.
    pub closed spec fn levels(&self) -> Seq<ReadyQueue<P>> {
        self.ready@
    }

    /// The ready queue of level `p`, oldest entry first.
    pub open spec fn ready(&self, p: int) -> Seq<Entry<P>> {
        self.levels()[p]@
    }

    /// The capacity of the ready queue of level `p`.
    pub open spec fn slots(&self, p: int) -> nat {
        self.levels()[p].limit()
    }

    /// The timer queue, in the order in which its entries leave.
    pub closed spec fn timer(&self) -> Seq<Timed<P>> {
        self.timer@
    }

    /// The capacity of the timer queue.
    pub closed spec fn timer_limit(&self) -> nat {
        self.timer.limit()
    }

    /// The invariant of the system.
    pub open spec fn wf(&self) -> bool {
        &&& self.levels().len() == 256
        &&& forall|p: int| 0 <= p < 256 ==> (#[trigger] self.levels()[p]).wf()
        &&& sorted(self.timer())
        &&& self.timer().len() <= self.timer_limit()
        &&& self.app().valid()
        &&& self.pending().len() == self.app().tasks@.len()
        &&& forall|p: int, i: int|
            0 <= p < 256 && 0 <= i < self.ready(p).len() ==> self.app().queues_at(
                (#[trigger] self.levels()[p]@[i]).task as int,
                p as u8,
            )
        &&& forall|i: int|
            0 <= i < self.timer().len() ==> self.app().software_at(
                (#[trigger] self.timer()[i]).task as int,
            )
        &&& forall|p: int|
            0 <= p < 256 ==> (#[trigger] self.levels()[p])@.len() + reserved(
                self.app(),
                self.timer(),
                p as u8,
            ) <= self.slots(p)
        &&& forall|p: int|
            0 <= p < 256 ==> (#[trigger] self.levels()[p]).limit() == self.app().level_slots(p as u8)
        &&& (self.phase() is Done) == (self.late() is Some)
        &&& !(self.phase() is Done) ==> self.stack().len() == 0 && self.mask() == 255
        &&& self.phase() is Done ==> self.mask() == top_of(self.app(), self.stack())
        &&& stacked(self.app(), self.stack())
    }

    /// The tables and the capacities are those of `before`.
    pub open spec fn same_build(&self, before: &Self) -> bool {
        &&& self.app() == before.app()
        &&& self.timer_limit() == before.timer_limit()
        &&& forall|p: int|
            0 <= p < 256 ==> (#[trigger] self.levels()[p]).limit() == before.levels()[p].limit()
    }

    /// Every ready queue is as in `before`, but for that of level `but`.
    pub open spec fn same_ready(&self, before: &Self, but: int) -> bool {
        forall|p: int|
            0 <= p < 256 && p != but ==> (#[trigger] self.levels()[p])@ == before.levels()[p]@
    }

    /// What is queued or pending is as in `before`.
    pub open spec fn same_queues(&self, before: &Self) -> bool {
        &&& self.pending() == before.pending()
        &&& self.timer() == before.timer()
        &&& self.same_ready(before, -1)
    }

    /// What runs, at which level, is as in `before`.
    pub open spec fn same_stack(&self, before: &Self) -> bool {
        &&& self.stack() == before.stack()
        &&& self.mask() == before.mask()
    }

    /// Initialization has come as far as in `before`.
    pub open spec fn same_phase(&self, before: &Self) -> bool {
        &&& self.phase() == before.phase()
        &&& self.late() == before.late()
    }

    /// Nothing differs from `before`.
    pub open spec fn same(&self, before: &Self) -> bool {
        &&& self.same_build(before)
        &&& self.same_queues(before)
        &&& self.same_stack(before)
        &&& self.same_phase(before)
    }

    /// Builds a system from a task and resource table, where the table is
    /// valid; else says what is wrong with it. Nothing has started: `init`
    /// has not run, every interrupt is masked and every queue is empty.
    pub fn new(app: App, timer_capacity: usize) -> (made: Result<Self, ConfigError>)
        ensures
            made is Ok <==> app.valid(),
            made matches Err(e) ==> app.rejects(e),
            made matches Ok(s) ==> {
                &&& s.wf()
                &&& *s.app() == app
                &&& s.phase() is NotStarted
                &&& s.late() is None
                &&& s.stack().len() == 0
                &&& s.timer().len() == 0
                &&& s.timer_limit() == timer_capacity
                &&& forall|t: int| 0 <= t < app.tasks@.len() ==> !(#[trigger] s.pending()[t])
                &&& forall|p: int| 0 <= p < 256 ==> (#[trigger] s.levels()[p])@.len() == 0
            },
    {
        match app.validate() {
            Err(e) => {
                return Err(e);
            },
            Ok(()) => {},
        }
        let mut pending: Vec<bool> = Vec::new();
        let mut t: usize = 0;
        while t < app.tasks.len()
            invariant
                t <= app.tasks@.len(),
                pending@.len() == t,
                forall|i: int| 0 <= i < t ==> !pending@[i],
            decreases app.tasks@.len() - t,
        {
            pending.push(false);
            t += 1;
        }
        let mut ready: Vec<ReadyQueue<P>> = Vec::new();
        let mut p: usize = 0;
        while p < 256
            invariant
                p <= 256,
                ready@.len() == p,
                forall|q: int|
                    0 <= q < p ==> {
                        &&& (#[trigger] ready@[q]).wf()
                        &&& ready@[q]@.len() == 0
                        &&& ready@[q].limit() == app.level_slots(q as u8)
                    },
            decreases 256 - p,
        {
            let slots: usize = app.slots(p as u8);
            ready.push(ReadyQueue::new(slots));
            p += 1;
        }
        let timer: TimerQueue<P> = TimerQueue::new(timer_capacity);
        let system = System {
            app,
            phase: Phase::NotStarted,
            late: None,
            mask: 255,
            frames: Vec::new(),
            pending,
            ready,
            timer,
        };
        Ok(system)
    }

    /// Begins initialization: `init` runs, with every interrupt masked.
    /// Hands out the context of `init`; nothing happens where `init` has
    /// begun before.
    pub fn start(&mut self) -> (begun: Option<Bundle>)
        requires
            old(self).wf(),
        ensures
            final(self).wf(),
            final(self).same_build(old(self)),
            final(self).same_queues(old(self)),
            final(self).same_stack(old(self)),
            final(self).late() == old(self).late(),
            begun is Some <==> old(self).phase() is NotStarted,
            begun matches Some(bundle) ==> final(self).phase() is Running && bundle_for(
                bundle,
                Context::Init,
                old(self).app(),
                255,
                0,
            ),
            begun is None ==> final(self).phase() == old(self).phase(),
    {
        match self.phase {
            Phase::NotStarted => {
                self.phase = Phase::Running;
                Some(build(Context::Init, &self.app, 255, 0))
            },
            _ => None,
        }
    }

    /// Ends initialization: takes the critical-section token back,
    /// publishes the late resources, enables interrupts and enters `idle`
    /// where the application has one, whose context it hands out. Where
    /// `init` is not running, nothing happens and `late` comes back.
    pub fn finish(&mut self, cs: CriticalSection, late: L) -> (ended: Result<Option<Bundle>, L>)
        requires
            old(self).wf(),
        ensures
            final(self).wf(),
            final(self).same_build(old(self)),
            final(self).same_queues(old(self)),
            ended is Ok <==> old(self).phase() is Running,
            ended matches Err(back) ==> back == late && final(self).same(old(self)),
            ended matches Ok(idle) ==> {
                &&& final(self).phase() is Done
                &&& final(self).late() == Some(late)
                &&& final(self).mask() == 0
                &&& idle is Some <==> old(self).app().has_idle()
                &&& idle matches Some(bundle) ==> bundle_for(bundle, Context::Idle, old(self).app(), 0, 0)
                &&& final(self).stack().len() == if old(self).app().has_idle() {
                    1nat
                } else {
                    0nat
                }
                &&& old(self).app().has_idle() ==> {
                    &&& final(self).stack()[0].task == old(self).app().idle_index()
                    &&& final(self).stack()[0].resume == 0
                    &&& final(self).stack()[0].held@.len() == 0
                }
            },
    {
        match self.phase {
            Phase::Running => {},
            _ => {
                return Err(late);
            },
        }
        self.phase = Phase::Done;
        self.late = Some(late);
        self.mask = 0;
        match self.app.idle() {
            None => Ok(None),
            Some(task) => {
                self.frames.push(Frame { task, resume: 0, held: Vec::new() });
                Ok(Some(build(Context::Idle, &self.app, 0, 0)))
            },
        }
    }

    /// Records that the interrupt of hardware task `task` has fired. Says
    /// whether `task` is a hardware task; nothing happens where it is not.
    pub fn pend(&mut self, task: usize) -> (accepted: bool)
        requires
            old(self).wf(),
        ensures
            final(self).wf(),
            final(self).same_build(old(self)),
            final(self).same_stack(old(self)),
            final(self).same_phase(old(self)),
            final(self).same_ready(old(self), -1),
            final(self).timer() == old(self).timer(),
            accepted == old(self).app().hardware_at(task as int),
            final(self).pending() == if accepted {
                old(self).pending().update(task as int, true)
            } else {
                old(self).pending()
            },
    {
        if task >= self.app.tasks.len() {
            return false;
        }
        match self.app.tasks[task].kind {
            TaskKind::Hardware { .. } => {
                self.pending[task] = true;
                true
            },
            _ => false,
        }
    }

    /// The ready queue of level `p` has a slot that is neither taken nor
    /// reserved by an entry of the timer queue.
    pub open spec fn has_slot(&self, p: u8) -> bool {
        self.ready(p as int).len() + reserved(self.app(), self.timer(), p) < self.slots(p as int)
    }

    /// Counts the entries of the timer queue that will go to level `p`.
    fn promised(&self, p: u8) -> (n: usize)
        requires
            self.wf(),
        ensures
            n == reserved(self.app(), self.timer(), p),
    {
        let mut n: usize = 0;
        let mut i: usize = 0;
        while i < self.timer.len()
            invariant
                self.wf(),
                i <= self.timer().len(),
                n <= i,
                n == reserved(self.app(), self.timer().take(i as int), p),
            decreases self.timer().len() - i,
        {
            let t: usize = self.timer.task_at(i);
            proof {
                assert(self.timer().take(i + 1).drop_last() =~= self.timer().take(i as int));
            }
            if self.app.tasks[t].priority == p {
                n += 1;
            }
            i += 1;
        }
        assert(self.timer().take(i as int) =~= self.timer());
        n
    }

    /// Queues an invocation of software task `task` behind everything that
    /// waits at its level; the dispatcher of that level is pending from
    /// then on. Where the ready queue of the level has no free slot, the
    /// payload comes back and nothing changes.
    pub fn spawn(&mut self, task: usize, payload: P) -> (spawned: Result<(), (CapacityError, P)>)
        requires
            old(self).wf(),
            old(self).app().software_at(task as int),
        ensures
            final(self).wf(),
            final(self).same_build(old(self)),
            final(self).same_stack(old(self)),
            final(self).same_phase(old(self)),
            final(self).pending() == old(self).pending(),
            final(self).timer() == old(self).timer(),
            spawned is Ok <==> old(self).has_slot(old(self).app().tasks@[task as int].priority),
            spawned is Ok ==> {
                let p = old(self).app().tasks@[task as int].priority;
                &&& final(self).ready(p as int) == old(self).ready(p as int).push(
                    Entry { task, payload, instant: None },
                )
                &&& final(self).same_ready(old(self), p as int)
                &&& final(self).waiting(p)
            },
            spawned matches Err((why, back)) ==> {
                &&& why == CapacityError::ReadyQueueFull
                &&& back == payload
                &&& final(self).same_ready(old(self), -1)
            },
    {
        let p: u8 = self.app.tasks[task].priority;
        let promised: usize = self.promised(p);
        if self.ready[p as usize].len() + promised >= self.ready[p as usize].capacity() {
            return Err((CapacityError::ReadyQueueFull, payload));
        }
        let pushed = self.ready[p as usize].push(Entry { task, payload, instant: None });
        match pushed {
            Ok(()) => Ok(()),
            Err(entry) => Err((CapacityError::ReadyQueueFull, entry.payload)),
        }
    }

    /// Queues an invocation of software task `task` for `instant`: it
    /// waits in the timer queue, behind every entry that is not later,
    /// until `tick` finds it due. It fails, and hands the payload back,
    /// where the timer queue is full, and else where the ready queue of
    /// the task's level has no slot left to reserve.
    pub fn schedule(&mut self, task: usize, instant: u64, payload: P) -> (scheduled: Result<
        (),
        (CapacityError, P),
    >)
        requires
            old(self).wf(),
            old(self).app().software_at(task as int),
            old(self).app().schedules(),
        ensures
            final(self).wf(),
            final(self).same_build(old(self)),
            final(self).same_stack(old(self)),
            final(self).same_phase(old(self)),
            final(self).pending() == old(self).pending(),
            final(self).same_ready(old(self), -1),
            scheduled is Ok <==> old(self).timer().len() < old(self).timer_limit()
                && old(self).has_slot(old(self).app().tasks@[task as int].priority),
            scheduled is Ok ==> final(self).timer() == old(self).timer().insert(
                due(old(self).timer(), instant) as int,
                Timed { instant, task, payload },
            ),
            scheduled matches Err((why, back)) ==> {
                &&& back == payload
                &&& final(self).timer() == old(self).timer()
                &&& why == if old(self).timer().len() >= old(self).timer_limit() {
                    CapacityError::TimerQueueFull
                } else {
                    CapacityError::ReadyQueueFull
                }
            },
    {
        if self.timer.is_full() {
            return Err((CapacityError::TimerQueueFull, payload));
        }
        let p: u8 = self.app.tasks[task].priority;
        let promised: usize = self.promised(p);
        if self.ready[p as usize].len() + promised >= self.ready[p as usize].capacity() {
            return Err((CapacityError::ReadyQueueFull, payload));
        }
        proof {
            let e = Timed { instant, task, payload };
            let at = due(self.timer(), instant) as int;
            lemma_insert_sorted(self.timer(), e);
            assert forall|q: u8| #[trigger]
                reserved(self.app(), self.timer().insert(at, e), q) == reserved(
                    self.app(),
                    self.timer(),
                    q,
                ) + if q == p {
                    1nat
                } else {
                    0nat
                } by {
                lemma_reserved_insert(self.app(), self.timer(), at, e, q);
            }
        }
        let inserted = self.timer.insert(Timed { instant, task, payload });
        match inserted {
            Ok(()) => Ok(()),
            Err(entry) => Err((CapacityError::TimerQueueFull, entry.payload)),
        }
    }

    /// The timer handler: with the clock at `now`, moves every entry of
    /// the timer queue that is due, in the queue's order, to the ready
    /// queue of its task's level. Says how many it moved.
    pub fn tick(&mut self, now: u64) -> (count: usize)
        requires
            old(self).wf(),
        ensures
            final(self).wf(),
            final(self).same_build(old(self)),
            final(self).same_stack(old(self)),
            final(self).same_phase(old(self)),
            final(self).pending() == old(self).pending(),
            count == due(old(self).timer(), now),
            final(self).timer() == old(self).timer().skip(count as int),
            forall|p: int|
                0 <= p < 256 ==> (#[trigger] final(self).levels()[p])@ == old(self).levels()[p]@
                    + moved(old(self).app(), old(self).timer().take(count as int), p as u8),
            forall|i: int|
                0 <= i < count ==> final(self).waiting(
                    old(self).app().tasks@[(#[trigger] old(self).timer()[i]).task as int].priority,
                ),
    {
        let mut count: usize = 0;
        loop
            invariant
                old(self).wf(),
                self.wf(),
                self.same_build(old(self)),
                self.same_stack(old(self)),
                self.same_phase(old(self)),
                self.pending() == old(self).pending(),
                count <= old(self).timer().len(),
                self.timer() == old(self).timer().skip(count as int),
                forall|j: int| 0 <= j < count ==> old(self).timer()[j].instant <= now,
                forall|p: int|
                    0 <= p < 256 ==> (#[trigger] self.levels()[p])@ == old(self).levels()[p]@
                        + moved(old(self).app(), old(self).timer().take(count as int), p as u8),
                forall|i: int|
                    0 <= i < count ==> self.ready(
                        old(self).app().tasks@[(#[trigger] old(self).timer()[i]).task as int].priority as int,
                    ).len() > 0,
            ensures
                count == due(old(self).timer(), now),
            decreases self.timer().len(),
        {
            let ghost before = self.timer();
            match self.timer.pop_due(now) {
                None => {
                    proof {
                        lemma_parts_is_due(old(self).timer(), now, count as int);
                    }
                    break ;
                },
                Some(entry) => {
                    let p: u8 = self.app.tasks[entry.task].priority;
                    proof {
                        let all = old(self).timer();
                        self.timer.lemma_limit_fits();
                        assert(self.app().software_at(before[0].task as int));
                        assert(all.take(count + 1).drop_last() =~= all.take(count as int));
                        assert forall|q: u8| #[trigger]
                            reserved(self.app(), before, q) == reserved(
                                self.app(),
                                before.skip(1),
                                q,
                            ) + if q == p {
                                1nat
                            } else {
                                0nat
                            } by {
                            lemma_reserved_skip(self.app(), before, q);
                        }
                    }
                    let pushed = self.ready[p as usize].push(released_entry(entry));
                    assert(pushed is Ok);
                    count += 1;
                },
            }
        }
        count
    }

    /// The interrupt of hardware task `t`, of priority `p`, has fired and
    /// its handler has not started yet.
    pub open spec fn fired(&self, t: int, p: u8) -> bool {
        self.app().hardware_at(t) && self.pending()[t] && self.app().tasks@[t].priority == p
    }

    /// Something waits to run at level `p`: a hardware task whose
    /// interrupt has fired, or an entry of the ready queue.
    pub open spec fn waiting(&self, p: u8) -> bool {
        (exists|t: int| self.fired(t, p)) || self.ready(p as int).len() > 0
    }

    /// Tells whether something waits to run at level `p`, that is, whether
    /// the interrupt that starts it is pending.
    pub fn waits(&self, p: u8) -> (yes: bool)
        requires
            self.wf(),
        ensures
            yes == self.waiting(p),
    {
        let fired: Option<usize> = self.first_fired(p);
        fired.is_some() || !self.ready[p as usize].is_empty()
    }

    /// Finds the first hardware task of priority `p` whose interrupt has
    /// fired.
    fn first_fired(&self, p: u8) -> (found: Option<usize>)
        requires
            self.wf(),
        ensures
            found matches Some(t) ==> self.fired(t as int, p) && forall|u: int|
                0 <= u < t ==> !self.fired(u, p),
            found is None ==> forall|u: int| !self.fired(u, p),
    {
        let mut t: usize = 0;
        while t < self.app.tasks.len()
            invariant
                self.wf(),
                t <= self.app().tasks@.len(),
                forall|u: int| 0 <= u < t ==> !self.fired(u, p),
            decreases self.app().tasks@.len() - t,
        {
            if self.pending[t] && self.app.tasks[t].priority == p {
                if let TaskKind::Hardware { .. } = self.app.tasks[t].kind {
                    return Some(t);
                }
            }
            t += 1;
        }
        None
    }

    /// Finds the highest level above the mask at which something waits.
    fn next_level(&self) -> (found: Option<u8>)
        requires
            self.wf(),
        ensures
            found matches Some(p) ==> p > self.mask() && self.waiting(p) && forall|q: u8|
                q > p ==> !self.waiting(q),
            found is None ==> forall|q: u8| q > self.mask() ==> !self.waiting(q),
    {
        let mut p: u8 = 255;
        while p > self.mask
            invariant
                self.wf(),
                p >= self.mask(),
                forall|q: u8| q > p ==> !self.waiting(q),
            decreases p,
        {
            if self.waits(p) {
                return Some(p);
            }
            p -= 1;
        }
        None
    }

    /// The dispatcher: starts the invocation that the interrupt controller
    /// would run next, where there is one. That is at the highest level
    /// above the mask at which something waits; at that level a hardware
    /// task whose interrupt has fired goes before the ready queue, the one
    /// of the lowest index first, and the ready queue gives its oldest
    /// entry. The invocation preempts what ran: the mask rises to its
    /// level, and goes back to what it was when `complete` ends it. A
    /// hardware task is told `now` as its instant, a software task the
    /// instant it was scheduled for, or `now` where it was spawned.
    pub fn dispatch(&mut self, now: u64) -> (started: Option<Invocation<P>>)
        requires
            old(self).wf(),
        ensures
            final(self).wf(),
            final(self).same_build(old(self)),
            final(self).same_phase(old(self)),
            final(self).timer() == old(self).timer(),
            started is None <==> forall|q: u8| q > old(self).mask() ==> !old(self).waiting(q),
            started is None ==> final(self).same(old(self)),
            started matches Some(inv) ==> {
                let app = old(self).app();
                let p = app.tasks@[inv.task as int].priority;
                let first = old(self).ready(p as int)[0];
                &&& inv.task < app.tasks@.len()
                &&& p > old(self).mask()
                &&& old(self).waiting(p)
                &&& forall|q: u8| q > p ==> !old(self).waiting(q)
                &&& final(self).mask() == p
                &&& final(self).stack().len() == old(self).stack().len() + 1
                &&& final(self).stack().drop_last() == old(self).stack()
                &&& final(self).stack().last().task == inv.task
                &&& final(self).stack().last().resume == old(self).mask()
                &&& final(self).stack().last().held@.len() == 0
                &&& if exists|t: int| old(self).fired(t, p) {
                    &&& old(self).fired(inv.task as int, p)
                    &&& forall|u: int| 0 <= u < inv.task ==> !old(self).fired(u, p)
                    &&& inv.payload is None
                    &&& final(self).pending() == old(self).pending().update(inv.task as int, false)
                    &&& final(self).same_ready(old(self), -1)
                    &&& bundle_for(inv.context, Context::HardwareTask(inv.task), app, p, now)
                } else {
                    &&& inv.task == first.task
                    &&& inv.payload == Some(first.payload)
                    &&& final(self).ready(p as int) == old(self).ready(p as int).skip(1)
                    &&& final(self).same_ready(old(self), p as int)
                    &&& final(self).pending() == old(self).pending()
                    &&& bundle_for(
                        inv.context,
                        Context::SoftwareTask(inv.task),
                        app,
                        p,
                        match first.instant {
                            Some(instant) => instant,
                            None => now,
                        },
                    )
                }
            },
    {
        let p: u8 = match self.next_level() {
            None => {
                return None;
            },
            Some(p) => p,
        };
        let resume: u8 = self.mask;
        match self.first_fired(p) {
            Some(task) => {
                self.pending[task] = false;
                self.frames.push(Frame { task, resume, held: Vec::new() });
                self.mask = p;
                Some(
                    Invocation {
                        task,
                        payload: None,
                        context: build(Context::HardwareTask(task), &self.app, p, now),
                    },
                )
            },
            None => {
                let popped = self.ready[p as usize].pop();
                let entry: Entry<P> = popped.unwrap();
                let task: usize = entry.task;
                self.frames.push(Frame { task, resume, held: Vec::new() });
                self.mask = p;
                let instant: u64 = match entry.instant {
                    Some(instant) => instant,
                    None => now,
                };
                Some(
                    Invocation {
                        task,
                        payload: Some(entry.payload),
                        context: build(Context::SoftwareTask(task), &self.app, p, instant),
                    },
                )
            },
        }
    }

    /// The masked level, and the levels that the locks of the running
    /// invocation have saved, outermost first.
    pub open spec fn levels_kept(&self) -> (u8, Seq<u8>) {
        (self.mask(), saved_levels(self.stack().last().held@))
    }

    /// The running invocation may lock resource `r`: it runs, its task
    /// may lock `r`, and it does not hold `r` already.
    pub open spec fn may_lock(&self, r: int) -> bool {
        &&& self.stack().len() > 0
        &&& self.app().lockable(self.stack().last().task as int, r)
        &&& forall|k: int|
            0 <= k < self.stack().last().held@.len() ==> (
            #[trigger] self.stack().last().held@[k]).resource != r
    }

    /// Tells whether the running invocation may lock `resource`.
    pub fn can_lock(&self, resource: usize) -> (yes: bool)
        requires
            self.wf(),
        ensures
            yes == self.may_lock(resource as int),
    {
        if self.frames.len() == 0 || resource >= self.app.resources.len() {
            return false;
        }
        let frame = &self.frames[self.frames.len() - 1];
        if self.app.resources[resource].task_local || !lists(
            &self.app.tasks[frame.task].resources,
            resource,
        ) || !lists(&self.app.resources[resource].accessors, frame.task) {
            return false;
        }
        let mut k: usize = 0;
        while k < frame.held.len()
            invariant
                self.stack().len() > 0,
                *frame == self.stack().last(),
                k <= frame.held@.len(),
                forall|j: int| 0 <= j < k ==> (#[trigger] frame.held@[j]).resource != resource,
            decreases frame.held@.len() - k,
        {
            if frame.held[k].resource == resource {
                return false;
            }
            k += 1;
        }
        true
    }

    /// Locks `resource` for the running invocation: saves the masked
    /// level and raises the mask to the resource's ceiling where that is
    /// higher. It never waits.
    pub fn lock(&mut self, resource: usize)
        requires
            old(self).wf(),
            old(self).may_lock(resource as int),
        ensures
            final(self).wf(),
            final(self).same_build(old(self)),
            final(self).same_queues(old(self)),
            final(self).same_phase(old(self)),
            final(self).mask() == higher(
                old(self).mask(),
                old(self).app().ceiling_of(resource as int),
            ),
            final(self).stack().len() == old(self).stack().len(),
            final(self).stack().drop_last() == old(self).stack().drop_last(),
            final(self).stack().last().task == old(self).stack().last().task,
            final(self).stack().last().resume == old(self).stack().last().resume,
            final(self).stack().last().held@ == old(self).stack().last().held@.push(
                Held { resource, saved: old(self).mask() },
            ),
            final(self).levels_kept() == after_lock(
                old(self).levels_kept(),
                old(self).app().ceiling_of(resource as int),
            ),
    {
        let ceiling: u8 = self.app.ceiling(resource);
        let saved: u8 = self.mask;
        let mut frame: Frame = self.frames.pop().unwrap();
        frame.held.push(Held { resource, saved });
        self.frames.push(frame);
        if ceiling > saved {
            self.mask = ceiling;
        }
    }

    /// This is the state that a lock of `resource` leads to from `before`.
    pub open spec fn locked_from(&self, before: &Self, resource: usize) -> bool {
        &&& self.wf()
        &&& self.same_build(before)
        &&& self.same_queues(before)
        &&& self.same_phase(before)
        &&& self.mask() == higher(before.mask(), before.app().ceiling_of(resource as int))
        &&& self.stack().len() == before.stack().len()
        &&& self.stack().drop_last() == before.stack().drop_last()
        &&& self.stack().last().task == before.stack().last().task
        &&& self.stack().last().resume == before.stack().last().resume
        &&& self.stack().last().held@ == before.stack().last().held@.push(
            Held { resource, saved: before.mask() },
        )
    }

    /// The same invocations run in this state as in `before`, each with
    /// the same locks, and the mask is the same.
    pub open spec fn runs_as(&self, before: &Self) -> bool {
        &&& self.mask() == before.mask()
        &&& self.stack().len() == before.stack().len()
        &&& forall|i: int|
            0 <= i < self.stack().len() ==> {
                &&& (#[trigger] self.stack()[i]).task == before.stack()[i].task
                &&& self.stack()[i].resume == before.stack()[i].resume
                &&& self.stack()[i].held@ == before.stack()[i].held@
            }
    }

    /// The resource lock manager. Runs `body` on `data` with `resource`
    /// locked for the running invocation, whose token this is, and returns
    /// what `body` returned. The mask is at the resource's ceiling, or
    /// above it, while `body` runs, and afterwards it is exactly what it
    /// was before. `body` is handed the system: it may lock further
    /// resources, spawn and schedule, and the driver may let higher tasks
    /// preempt it, as long as it hands the system back as it found it,
    /// with the same invocations running and the same locks held.
    pub fn with_lock<T, R, F: FnOnce(&mut Self, &mut T) -> R>(
        &mut self,
        token: &Priority,
        resource: usize,
        data: &mut T,
        body: F,
    ) -> (result: R)
        requires
            old(self).wf(),
            old(self).may_lock(resource as int),
            token.level() == old(self).stack().last().base(old(self).app()),
            forall|s: &mut Self, d: &mut T|
                s.locked_from(old(self), resource) && *d == *old(data) ==> body.requires((s, d)),
            forall|s: &mut Self, d: &mut T, out: R|
                s.locked_from(old(self), resource) && #[trigger] body.ensures((s, d), out) ==> {
                    &&& final(s).wf()
                    &&& final(s).same_build(&*s)
                    &&& final(s).runs_as(&*s)
                },
        ensures
            final(self).wf(),
            final(self).same_build(old(self)),
            final(self).runs_as(old(self)),
            exists|s: &mut Self, d: &mut T|
                {
                    &&& s.locked_from(old(self), resource)
                    &&& *d == *old(data)
                    &&& *final(d) == *final(data)
                    &&& #[trigger] body.ensures((s, d), result)
                    &&& final(self).same_queues(&*final(s))
                    &&& final(self).same_phase(&*final(s))
                },
    {
        self.lock(resource);
        let ghost locked = *self;
        let result = body(self, data);
        let ghost left = *self;
        self.unlock();
        proof {
            let n = old(self).stack().len() - 1;
            assert(self.stack().last().held@ =~= old(self).stack().last().held@);
            assert forall|i: int| 0 <= i < n implies {
                &&& (#[trigger] self.stack()[i]).task == old(self).stack()[i].task
                &&& self.stack()[i].resume == old(self).stack()[i].resume
                &&& self.stack()[i].held@ == old(self).stack()[i].held@
            } by {
                assert(self.stack()[i] == self.stack().drop_last()[i]);
                assert(left.stack()[i] == left.stack().drop_last()[i]);
                assert(locked.stack()[i] == locked.stack().drop_last()[i]);
                assert(old(self).stack()[i] == old(self).stack().drop_last()[i]);
            }
        }
        result
    }

    /// Releases the innermost lock of the running invocation and puts the
    /// mask back to the level that the lock had saved. Says which
    /// resource was released.
    pub fn unlock(&mut self) -> (resource: usize)
        requires
            old(self).wf(),
            old(self).stack().len() > 0,
            old(self).stack().last().held@.len() > 0,
        ensures
            final(self).wf(),
            final(self).same_build(old(self)),
            final(self).same_queues(old(self)),
            final(self).same_phase(old(self)),
            resource == old(self).stack().last().held@.last().resource,
            final(self).mask() == old(self).stack().last().held@.last().saved,
            final(self).stack().len() == old(self).stack().len(),
            final(self).stack().drop_last() == old(self).stack().drop_last(),
            final(self).stack().last().task == old(self).stack().last().task,
            final(self).stack().last().resume == old(self).stack().last().resume,
            final(self).stack().last().held@ == old(self).stack().last().held@.drop_last(),
            final(self).levels_kept() == after_unlock(old(self).levels_kept()),
    {
        let mut frame: Frame = self.frames.pop().unwrap();
        let held: Held = frame.held.pop().unwrap();
        self.frames.push(frame);
        self.mask = held.saved;
        held.resource
    }

    /// Ends the running invocation: the task's body has returned. The
    /// mask goes back to the level at which the invocation had started,
    /// and what it had preempted runs on.
    pub fn complete(&mut self)
        requires
            old(self).wf(),
            old(self).stack().len() > 0,
            old(self).stack().last().held@.len() == 0,
            !(old(self).app().tasks@[old(self).stack().last().task as int].kind is Idle),
        ensures
            final(self).wf(),
            final(self).same_build(old(self)),
            final(self).same_queues(old(self)),
            final(self).same_phase(old(self)),
            final(self).stack() == old(self).stack().drop_last(),
            final(self).mask() == old(self).stack().last().resume,
    {
        let frame: Frame = self.frames.pop().unwrap();
        self.mask = frame.resume;
    }

    /// The running invocation owns the task-local resource `r`: it reads
    /// and writes it directly, with no lock and no change of the mask.
    pub open spec fn owns(&self, r: int) -> bool {
        &&& self.stack().len() > 0
        &&& 0 <= r < self.app().resources@.len()
        &&& self.app().resources@[r].task_local
        &&& 0 <= r <= usize::MAX && self.app().tasks@[self.stack().last().task as int].resources@.contains(
            r as usize,
        )
    }

    /// Tells whether the running invocation owns the task-local resource
    /// `resource`.
    pub fn owns_local(&self, resource: usize) -> (yes: bool)
        requires
            self.wf(),
        ensures
            yes == self.owns(resource as int),
    {
        if self.frames.len() == 0 || resource >= self.app.resources.len() {
            return false;
        }
        let frame = &self.frames[self.frames.len() - 1];
        self.app.resources[resource].task_local && lists(
            &self.app.tasks[frame.task].resources,
            resource,
        )
    }

    /// Tells whether the running invocation can end now: one runs, it is
    /// not `idle`, and it holds no lock.
    pub fn can_complete(&self) -> (yes: bool)
        requires
            self.wf(),
        ensures
            yes == (self.stack().len() > 0 && self.stack().last().held@.len() == 0 && !(
            self.app().tasks@[self.stack().last().task as int].kind is Idle)),
    {
        if self.frames.len() == 0 {
            return false;
        }
        let frame = &self.frames[self.frames.len() - 1];
        if frame.held.len() > 0 {
            return false;
        }
        match self.app.tasks[frame.task].kind {
            TaskKind::Idle => false,
            _ => true,
        }
    }

    /// The task that runs now, where one does.
    pub fn running(&self) -> (task: Option<usize>)
        ensures
            task == if self.stack().len() > 0 {
                Some(self.stack().last().task)
            } else {
                None
            },
    {
        if self.frames.len() > 0 {
            Some(self.frames[self.frames.len() - 1].task)
        } else {
            None
        }
    }

    /// How many locks the running invocation holds.
    pub fn depth(&self) -> (locks: usize)
        ensures
            locks == if self.stack().len() > 0 {
                self.stack().last().held@.len()
            } else {
                0
            },
    {
        if self.frames.len() > 0 {
            self.frames[self.frames.len() - 1].held.len()
        } else {
            0
        }
    }

    /// The instant to arm the timer for: that of the first entry of the
    /// timer queue.
    pub fn next_instant(&self) -> (instant: Option<u64>)
        ensures
            instant == if self.timer().len() > 0 {
                Some(self.timer()[0].instant)
            } else {
                None
            },
    {
        self.timer.next_instant()
    }

    /// How far initialization has come.
    pub fn current_phase(&self) -> (phase: Phase)
        ensures
            phase == self.phase(),
    {
        self.phase
    }

    /// The masked level.
    pub fn masked(&self) -> (level: u8)
        ensures
            level == self.mask(),
    {
        self.mask
    }

    /// The late resources, once `init` has published them.
    pub fn late_resources(&self) -> (late: Option<&L>)
        ensures
            late is Some <==> self.late() is Some,
            late matches Some(l) ==> self.late() == Some(*l),
    {
        self.late.as_ref()
    }
}

} // verus!
