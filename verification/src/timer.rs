//! The timer queue: deferred invocations kept in the order of their
//! instants, earliest first, and in the order of arrival among equals.

use vstd::prelude::*;

verus! {

/// An invocation of a software task that waits for its instant.
#[derive(Debug)]
pub struct Timed<P> {
    /// The instant at or after which the task is to run.
    pub instant: u64,
    /// The task to invoke.
    pub task: usize,
    /// What the task is handed.
    pub payload: P,
}

/// No entry stands before one of an earlier instant.
pub open spec fn sorted<P>(s: Seq<Timed<P>>) -> bool {
    forall|i: int, j: int| 0 <= i <= j < s.len() ==> s[i].instant <= s[j].instant
}

/// How many entries of `s` have an instant at or before `now`.
pub open spec fn due<P>(s: Seq<Timed<P>>, now: u64) -> nat
    decreases s.len(),
{
    if s.len() == 0 {
        0
    } else {
        due(s.drop_last(), now) + if s.last().instant <= now {
            1nat
        } else {
            0nat
        }
    }
}

/// `p` parts `s` into the entries at or before `now` and those after it.
pub open spec fn parts_at<P>(s: Seq<Timed<P>>, now: u64, p: int) -> bool {
    &&& 0 <= p <= s.len()
    &&& forall|i: int| 0 <= i < p ==> s[i].instant <= now
    &&& forall|i: int| p <= i < s.len() ==> s[i].instant > now
}

/// In a sorted queue the entries that are due are exactly its first
/// `due(s, now)` entries.
pub proof fn lemma_due_parts<P>(s: Seq<Timed<P>>, now: u64)
    requires
        sorted(s),
    ensures
        parts_at(s, now, due(s, now) as int),
    decreases s.len(),
{
    if s.len() > 0 {
        let front = s.drop_last();
        lemma_due_parts(front, now);
        assert forall|i: int| 0 <= i < due(s, now) implies s[i].instant <= now by {
            if i < front.len() {
                assert(s[i] == front[i]);
            }
        }
        assert forall|i: int| due(s, now) <= i < s.len() implies s[i].instant > now by {
            if i < front.len() {
                assert(s[i] == front[i]);
            }
        }
    }
}

/// A place that parts a queue is the number of its due entries.
pub proof fn lemma_parts_is_due<P>(s: Seq<Timed<P>>, now: u64, p: int)
    requires
        parts_at(s, now, p),
    ensures
        due(s, now) == p,
    decreases s.len(),
{
    if s.len() > 0 {
        let front = s.drop_last();
        let q = if p == s.len() {
            p - 1
        } else {
            p
        };
        lemma_parts_is_due(front, now, q);
    }
}

/// Deferred invocations, earliest instant first.
pub struct TimerQueue<P> {
    entries: Vec<Timed<P>>,
    capacity: usize,
}

impl<P> TimerQueue<P> {
    /// The waiting invocations, in the order in which they will leave.
    pub closed spec fn view(&self) -> Seq<Timed<P>> {
        self.entries@
    }

    /// How many invocations the queue can hold.
    pub closed spec fn limit(&self) -> nat {
        self.capacity as nat
    }

    /// The queue is sorted and holds no more than its capacity.
    pub open spec fn wf(&self) -> bool {
        sorted(self@) && self@.len() <= self.limit()
    }

    /// A capacity is a `usize`.
    pub proof fn lemma_limit_fits(&self)
        ensures
            self.limit() <= usize::MAX,
    {
    }

    /// An empty queue that can hold `capacity` invocations.
    pub fn new(capacity: usize) -> (q: Self)
        ensures
            q.wf(),
            q@ == Seq::<Timed<P>>::empty(),
            q.limit() == capacity,
    {
        TimerQueue { entries: Vec::new(), capacity }
    }

    /// The number of waiting invocations.
    pub fn len(&self) -> (n: usize)
        ensures
            n == self@.len(),
    {
        self.entries.len()
    }

    /// The capacity the queue was made with.
    pub fn capacity(&self) -> (n: usize)
        ensures
            n == self.limit(),
    {
        self.capacity
    }

    /// Whether the queue can take no further invocation.
    pub fn is_full(&self) -> (yes: bool)
        ensures
            yes == (self@.len() >= self.limit()),
    {
        self.entries.len() >= self.capacity
    }

    /// The instant to arm the timer for: that of the first entry.
    pub fn next_instant(&self) -> (instant: Option<u64>)
        ensures
            instant == if self@.len() > 0 {
                Some(self@[0].instant)
            } else {
                None
            },
    {
        if self.entries.len() > 0 {
            Some(self.entries[0].instant)
        } else {
            None
        }
    }

    /// The task of the waiting invocation at `i`.
    pub fn task_at(&self, i: usize) -> (task: usize)
        requires
            i < self@.len(),
        ensures
            task == self@[i as int].task,
    {
        self.entries[i].task
    }

    /// Puts `entry` behind every entry whose instant is at or before its
    /// own, and before every later one. A full queue hands the entry back
    /// and stays as it was.
    pub fn insert(&mut self, entry: Timed<P>) -> (inserted: Result<(), Timed<P>>)
        requires
            old(self).wf(),
        ensures
            final(self).wf(),
            final(self).limit() == old(self).limit(),
            inserted is Ok <==> old(self)@.len() < old(self).limit(),
            inserted is Ok ==> final(self)@ == old(self)@.insert(
                due(old(self)@, entry.instant) as int,
                entry,
            ),
            inserted matches Err(back) ==> back == entry && final(self)@ == old(self)@,
    {
        if self.entries.len() >= self.capacity {
            return Err(entry);
        }
        let mut at: usize = 0;
        while at < self.entries.len() && self.entries[at].instant <= entry.instant
            invariant
                at <= self.entries@.len(),
                self.entries@ == old(self).entries@,
                forall|i: int| 0 <= i < at ==> self.entries@[i].instant <= entry.instant,
            decreases self.entries@.len() - at,
        {
            at += 1;
        }
        proof {
            lemma_parts_is_due(self.entries@, entry.instant, at as int);
        }
        self.entries.insert(at, entry);
        Ok(())
    }

    /// Takes the first entry out, where its instant is at or before `now`.
    pub fn pop_due(&mut self, now: u64) -> (popped: Option<Timed<P>>)
        requires
            old(self).wf(),
        ensures
            final(self).wf(),
            final(self).limit() == old(self).limit(),
            popped is Some <==> old(self)@.len() > 0 && old(self)@[0].instant <= now,
            popped matches Some(entry) ==> entry == old(self)@[0] && final(self)@ == old(self)@.skip(1),
            popped is None ==> final(self)@ == old(self)@,
    {
        if self.entries.len() > 0 && self.entries[0].instant <= now {
            let entry = self.entries.remove(0);
            Some(entry)
        } else {
            None
        }
    }
}

/// Timer ordering. Put `a`, then `b`, into a sorted queue: where `a` is
/// not later than `b`, `a` stands before `b` and so leaves first, which for
/// equal instants keeps the order of arrival; where `b` is earlier than
/// `a`, `b` stands before `a`.
pub proof fn lemma_timer_order<P>(s: Seq<Timed<P>>, a: Timed<P>, b: Timed<P>)
    requires
        sorted(s),
    ensures
        ({
            let pa = due(s, a.instant) as int;
            let s1 = s.insert(pa, a);
            let pb = due(s1, b.instant) as int;
            let s2 = s1.insert(pb, b);
            &&& sorted(s1) && sorted(s2)
            &&& a.instant <= b.instant ==> pa < pb && s2[pa] == a && s2[pb] == b
            &&& b.instant < a.instant ==> pb <= pa && s2[pb] == b && s2[pa + 1] == a
        }),
{
    let pa = due(s, a.instant) as int;
    lemma_due_parts(s, a.instant);
    let s1 = s.insert(pa, a);
    lemma_due_parts(s1, b.instant);
    assert(s1[pa] == a);
}

/// Of two waiting entries the one with the earlier instant stands first,
/// so it leaves the queue, and reaches its ready queue, no later than the
/// other.
pub proof fn lemma_earlier_stands_first<P>(s: Seq<Timed<P>>, i: int, j: int)
    requires
        sorted(s),
        0 <= i < s.len(),
        0 <= j < s.len(),
        s[i].instant < s[j].instant,
    ensures
        i < j,
{
}

/// Whatever a tick releases, it releases everything that stands before
/// it: an entry is due only if every entry before it is due.
pub proof fn lemma_released_with_all_before<P>(s: Seq<Timed<P>>, now: u64, i: int, j: int)
    requires
        sorted(s),
        0 <= i <= j < s.len(),
        j < due(s, now),
    ensures
        i < due(s, now),
        s[i].instant <= now,
{
    lemma_due_parts(s, now);
}

/// Putting an entry at the place that `due` gives keeps a queue sorted.
pub proof fn lemma_insert_sorted<P>(s: Seq<Timed<P>>, e: Timed<P>)
    requires
        sorted(s),
    ensures
        0 <= due(s, e.instant) <= s.len(),
        sorted(s.insert(due(s, e.instant) as int, e)),
{
    lemma_due_parts(s, e.instant);
}

} // verus!
