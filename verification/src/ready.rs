//! Ready queues: one first-in first-out queue of pending software-task
//! invocations per priority level, of a capacity fixed when it is made.

use vstd::prelude::*;
use std::collections::VecDeque;

verus! {

/// A pending invocation of a software task.
#[derive(Debug)]
pub struct Entry<P> {
    /// The task to invoke.
    pub task: usize,
    /// What the task is handed.
    pub payload: P,
    /// The instant the invocation was scheduled for, where it was.
    pub instant: Option<u64>,
}

/// The pending invocations of one priority level, oldest first.
pub struct ReadyQueue<P> {
    entries: VecDeque<Entry<P>>,
    capacity: usize,
}

impl<P> ReadyQueue<P> {
    /// The pending invocations, oldest first.
    pub closed spec fn view(&self) -> Seq<Entry<P>> {
        self.entries@
    }

    /// How many invocations the queue can hold.
    pub closed spec fn limit(&self) -> nat {
        self.capacity as nat
    }

    /// The queue holds no more than its capacity.
    pub open spec fn wf(&self) -> bool {
        self@.len() <= self.limit()
    }

    /// An empty queue that can hold `capacity` invocations.
    pub fn new(capacity: usize) -> (q: Self)
        ensures
            q.wf(),
            q@ == Seq::<Entry<P>>::empty(),
            q.limit() == capacity,
    {
        ReadyQueue { entries: VecDeque::new(), capacity }
    }

    /// The number of pending invocations.
    pub fn len(&self) -> (n: usize)
        ensures
            n == self@.len(),
    {
        self.entries.len()
    }

    /// The capacity the queue was made with.
    pub fn capacity(&self) -> (n: usize)
        ensures
            n == self.limit(),
    {
        self.capacity
    }

    /// Whether nothing is pending.
    pub fn is_empty(&self) -> (yes: bool)
        ensures
            yes == (self@.len() == 0),
    {
        self.entries.len() == 0
    }

    /// Whether the queue can take no further invocation.
    pub fn is_full(&self) -> (yes: bool)
        ensures
            yes == (self@.len() >= self.limit()),
    {
        self.entries.len() >= self.capacity
    }

    /// The task of the oldest pending invocation.
    pub fn front_task(&self) -> (task: Option<usize>)
        ensures
            task == if self@.len() > 0 {
                Some(self@[0].task)
            } else {
                None
            },
    {
        if self.entries.len() > 0 {
            Some(self.entries[0].task)
        } else {
            None
        }
    }

    /// Puts `entry` behind everything that is pending. A full queue hands
    /// the entry back and stays as it was.
    pub fn push(&mut self, entry: Entry<P>) -> (pushed: Result<(), Entry<P>>)
        requires
            old(self).wf(),
        ensures
            final(self).wf(),
            final(self).limit() == old(self).limit(),
            pushed is Ok <==> old(self)@.len() < old(self).limit(),
            pushed is Ok ==> final(self)@ == old(self)@.push(entry),
            pushed matches Err(back) ==> back == entry && final(self)@ == old(self)@,
    {
        if self.entries.len() >= self.capacity {
            Err(entry)
        } else {
            self.entries.push_back(entry);
            Ok(())
        }
    }

    /// Takes the oldest pending invocation out.
    pub fn pop(&mut self) -> (popped: Option<Entry<P>>)
        requires
            old(self).wf(),
        ensures
            final(self).wf(),
            final(self).limit() == old(self).limit(),
            popped is Some <==> old(self)@.len() > 0,
            popped matches Some(entry) ==> entry == old(self)@[0] && final(self)@ == old(self)@.skip(1),
            popped is None ==> final(self)@ == old(self)@,
    {
        let popped = self.entries.pop_front();
        popped
    }
}

/// The entry that the `k`-th pop takes out of a queue that holds `s`, where
/// nothing is pushed in between.
pub open spec fn popped_at<P>(s: Seq<Entry<P>>, k: nat) -> Entry<P>
    recommends
        k < s.len(),
    decreases k,
{
    if k == 0 {
        s[0]
    } else {
        popped_at(s.skip(1), (k - 1) as nat)
    }
}

/// First in, first out: entries leave a queue in the order in which they
/// were pushed. The `k`-th pop takes out the `k`-th oldest entry, so of two
/// entries the one pushed earlier is popped earlier.
pub proof fn lemma_fifo<P>(s: Seq<Entry<P>>, k: nat)
    requires
        k < s.len(),
    ensures
        popped_at(s, k) == s[k as int],
    decreases k,
{
    if k > 0 {
        lemma_fifo(s.skip(1), (k - 1) as nat);
    }
}

/// Spawn `a`, then `b`, on the same queue: `a` is popped before `b`, after
/// exactly the entries that were pending before both.
pub proof fn lemma_spawn_order<P>(s: Seq<Entry<P>>, a: Entry<P>, b: Entry<P>)
    ensures
        popped_at(s.push(a).push(b), s.len()) == a,
        popped_at(s.push(a).push(b), s.len() + 1) == b,
{
    lemma_fifo(s.push(a).push(b), s.len());
    lemma_fifo(s.push(a).push(b), s.len() + 1);
}

} // verus!
