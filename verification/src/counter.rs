//! An integer behind a lock, and a crew of workers that each add one to it.

use crate::schedule::{Poll, ThreadId};
use crate::worker::WorkerFailure;
use vstd::pervasive::unreached;
use vstd::prelude::*;

verus! {

/// The lock was found poisoned: an earlier holder failed inside its critical
/// section.
#[derive(Debug, Clone, Copy, PartialEq, Eq, Structural)]
pub struct LockFailure;

/// An integer guarded by a lock.
///
/// The integer is read and written only while the lock is held. A critical
/// section ends in one of two ways, and either releases the lock: the holder
/// unlocks, or the holder fails and the lock is left poisoned. A poisoned
/// lock is never granted again.
#[derive(Debug, PartialEq, Eq)]
pub struct SharedCounter {
    value: i32,
    held: bool,
    poisoned: bool,
}

impl SharedCounter {
    /// The guarded integer.
    pub closed spec fn value(&self) -> i32 {
        self.value
    }

    /// Whether some thread holds the lock.
    pub closed spec fn is_held(&self) -> bool {
        self.held
    }

    /// Whether a holder has failed inside its critical section.
    pub closed spec fn is_poisoned(&self) -> bool {
        self.poisoned
    }

    /// What one attempt to lock yields on a counter in this state: the
    /// caller waits while another thread holds the lock; a poisoned lock
    /// fails; a free one is granted.
    pub open spec fn lock_spec(&self) -> Poll<Result<(), LockFailure>> {
        if self.is_held() {
            Poll::Pending
        } else if self.is_poisoned() {
            Poll::Ready(Err(LockFailure))
        } else {
            Poll::Ready(Ok(()))
        }
    }

    /// A counter that starts at `initial`, with its lock free.
    pub fn new(initial: i32) -> (counter: Self)
        ensures
            counter.value() == initial,
            !counter.is_held(),
            !counter.is_poisoned(),
    {
        SharedCounter { value: initial, held: false, poisoned: false }
    }

    /// Whether some thread holds the lock.
    pub fn is_locked(&self) -> (locked: bool)
        ensures
            locked == self.is_held(),
    {
        self.held
    }

    /// One attempt to acquire the lock. When it is granted the caller holds
    /// it until it calls [`SharedCounter::unlock`] or
    /// [`SharedCounter::abandon`]. Nothing else changes.
    pub fn lock(&mut self) -> (attempt: Poll<Result<(), LockFailure>>)
        ensures
            attempt == old(self).lock_spec(),
            final(self).value() == old(self).value(),
            final(self).is_poisoned() == old(self).is_poisoned(),
            final(self).is_held() == (old(self).is_held() || attempt == Poll::Ready(
                Ok::<(), LockFailure>(()),
            )),
    {
        if self.held {
            Poll::Pending
        } else if self.poisoned {
            Poll::Ready(Err(LockFailure))
        } else {
            self.held = true;
            Poll::Ready(Ok(()))
        }
    }

    /// Reads the integer, under the lock.
    pub fn get(&self) -> (value: i32)
        requires
            self.is_held(),
        ensures
            value == self.value(),
    {
        self.value
    }

    /// Writes the integer, under the lock.
    pub fn set(&mut self, value: i32)
        requires
            old(self).is_held(),
        ensures
            final(self).value() == value,
            final(self).is_held(),
            final(self).is_poisoned() == old(self).is_poisoned(),
    {
        self.value = value;
    }

    /// The holder leaves its critical section and releases the lock.
    pub fn unlock(&mut self)
        requires
            old(self).is_held(),
        ensures
            !final(self).is_held(),
            final(self).value() == old(self).value(),
            final(self).is_poisoned() == old(self).is_poisoned(),
    {
        self.held = false;
    }

    /// The holder fails inside its critical section: the lock is released
    /// all the same, and left poisoned.
    pub fn abandon(&mut self)
        requires
            old(self).is_held(),
        ensures
            !final(self).is_held(),
            final(self).is_poisoned(),
            final(self).value() == old(self).value(),
    {
        self.held = false;
        self.poisoned = true;
    }
}

/// Where a worker stands that adds one to a shared counter: it acquires the
/// lock and reads the integer, writes it back one higher, and releases the
/// lock.
#[derive(Debug, Clone, Copy, PartialEq, Eq, Structural)]
pub enum Incrementer {
    /// Has yet to acquire the lock.
    Waiting,
    /// Holds the lock and has read this value.
    Holding(i32),
    /// Holds the lock and has written the new value.
    Wrote,
    /// Has released the lock and ended.
    Done,
    /// Has ended in failure: it found the lock poisoned, or the integer
    /// could go no higher and it failed inside its critical section.
    Failed,
}

impl Incrementer {
    /// The worker is inside its critical section.
    pub open spec fn holds_lock(self) -> bool {
        self is Holding || self is Wrote
    }

    /// The worker's increment has reached the counter.
    pub open spec fn has_written(self) -> bool {
        self is Wrote || self is Done
    }

    /// The worker's body has ended.
    pub open spec fn has_ended(self) -> bool {
        self is Done || self is Failed
    }

    /// What one turn of a worker in this state does to the counter and to
    /// itself.
    pub open spec fn turn_spec(
        self,
        before: SharedCounter,
        next: Incrementer,
        after: SharedCounter,
    ) -> bool {
        match self {
            Incrementer::Waiting => match before.lock_spec() {
                Poll::Pending => next == Incrementer::Waiting && after == before,
                Poll::Ready(Err(_)) => next == Incrementer::Failed && after == before,
                Poll::Ready(Ok(_)) => {
                    &&& next == Incrementer::Holding(before.value())
                    &&& after.is_held()
                    &&& after.value() == before.value()
                    &&& !after.is_poisoned()
                },
            },
            Incrementer::Holding(seen) => if seen < i32::MAX {
                &&& next == Incrementer::Wrote
                &&& after.is_held()
                &&& after.value() == seen + 1
                &&& after.is_poisoned() == before.is_poisoned()
            } else {
                &&& next == Incrementer::Failed
                &&& !after.is_held()
                &&& after.value() == before.value()
                &&& after.is_poisoned()
            },
            Incrementer::Wrote => {
                &&& next == Incrementer::Done
                &&& !after.is_held()
                &&& after.value() == before.value()
                &&& after.is_poisoned() == before.is_poisoned()
            },
            Incrementer::Done | Incrementer::Failed => next == self && after == before,
        }
    }

    /// Whether the worker is inside its critical section.
    pub fn is_holding(&self) -> (holding: bool)
        ensures
            holding == self.holds_lock(),
    {
        match self {
            Incrementer::Holding(_) => true,
            Incrementer::Wrote => true,
            _ => false,
        }
    }

    /// Whether the worker's body has ended.
    pub fn is_ended(&self) -> (ended: bool)
        ensures
            ended == self.has_ended(),
    {
        match self {
            Incrementer::Done => true,
            Incrementer::Failed => true,
            _ => false,
        }
    }

    /// One turn of the worker: the next step of its body, or none if it is
    /// blocked on the lock or has ended. A worker inside its critical section
    /// is the one that holds the counter's lock.
    pub fn turn(self, counter: &mut SharedCounter) -> (next: Incrementer)
        requires
            self.holds_lock() ==> old(counter).is_held(),
        ensures
            self.turn_spec(*old(counter), next, *final(counter)),
    {
        match self {
            Incrementer::Waiting => match counter.lock() {
                Poll::Pending => Incrementer::Waiting,
                Poll::Ready(Err(_)) => Incrementer::Failed,
                Poll::Ready(Ok(_)) => Incrementer::Holding(counter.get()),
            },
            Incrementer::Holding(seen) => {
                if seen < i32::MAX {
                    counter.set(seen + 1);
                    Incrementer::Wrote
                } else {
                    counter.abandon();
                    Incrementer::Failed
                }
            },
            Incrementer::Wrote => {
                counter.unlock();
                Incrementer::Done
            },
            Incrementer::Done => Incrementer::Done,
            Incrementer::Failed => Incrementer::Failed,
        }
    }
}

/// How many of the workers' increments have reached the counter.
pub open spec fn written(workers: Seq<Incrementer>) -> nat
    decreases workers.len(),
{
    if workers.len() == 0 {
        0
    } else {
        written(workers.drop_last()) + if workers.last().has_written() {
            1nat
        } else {
            0nat
        }
    }
}

/// A turn of one worker changes the number of increments that have reached
/// the counter by that worker's share alone.
proof fn lemma_written_update(workers: Seq<Incrementer>, i: int, next: Incrementer)
    requires
        0 <= i < workers.len(),
    ensures
        written(workers.update(i, next)) + (if workers[i].has_written() {
            1nat
        } else {
            0nat
        }) == written(workers) + (if next.has_written() {
            1nat
        } else {
            0nat
        }),
    decreases workers.len(),
{
    let updated = workers.update(i, next);
    if i == workers.len() - 1 {
        assert(updated.drop_last() =~= workers.drop_last());
    } else {
        lemma_written_update(workers.drop_last(), i, next);
        assert(updated.drop_last() =~= workers.drop_last().update(i, next));
    }
}

/// No more increments have reached the counter than there are workers, and
/// fewer while one of them has yet to write.
proof fn lemma_written_bound(workers: Seq<Incrementer>)
    ensures
        written(workers) <= workers.len(),
        (exists|i: int| 0 <= i < workers.len() && !(#[trigger] workers[i]).has_written())
            ==> written(workers) < workers.len(),
        (forall|i: int| 0 <= i < workers.len() ==> (#[trigger] workers[i]).has_written())
            ==> written(workers) == workers.len(),
    decreases workers.len(),
{
    if workers.len() > 0 {
        let front = workers.drop_last();
        lemma_written_bound(front);
        assert(forall|i: int| 0 <= i < front.len() ==> front[i] == workers[i]);
        if exists|i: int| 0 <= i < workers.len() && !(#[trigger] workers[i]).has_written() {
            let i = choose|i: int| 0 <= i < workers.len() && !(#[trigger] workers[i]).has_written();
            if i < front.len() {
                assert(!front[i].has_written());
            }
        }
    }
}

/// How many turns a worker that is not kept waiting still needs to end.
spec fn turns_left(worker: Incrementer) -> nat {
    match worker {
        Incrementer::Waiting => 3,
        Incrementer::Holding(_) => 2,
        Incrementer::Wrote => 1,
        Incrementer::Done | Incrementer::Failed => 0,
    }
}

/// The counter together with the workers that add to it.
struct Crew {
    initial: i32,
    counter: SharedCounter,
    workers: Vec<Incrementer>,
    holder: Option<usize>,
}

impl Crew {
    /// At most one worker is inside its critical section, and it is the one
    /// that holds the lock; what it has read is what the counter holds; the
    /// counter stands at its initial value plus the increments written so
    /// far; and nothing fails as long as the integer has room for every
    /// worker's increment.
    spec fn wf(&self) -> bool {
        let n = self.workers@.len();
        &&& self.counter.is_held() == (self.holder is Some)
        &&& self.holder matches Some(h) ==> h < n && self.workers@[h as int].holds_lock()
        &&& forall|i: int|
            0 <= i < n && (#[trigger] self.workers@[i]).holds_lock() ==> self.holder is Some
                && self.holder.unwrap() == i
        &&& forall|i: int|
            0 <= i < n ==> (#[trigger] self.workers@[i] matches Incrementer::Holding(seen)
                ==> seen == self.counter.value())
        &&& self.counter.value() == self.initial + written(self.workers@)
        &&& self.initial + n <= i32::MAX ==> {
            &&& !self.counter.is_poisoned()
            &&& forall|i: int| 0 <= i < n ==> !(#[trigger] self.workers@[i] is Failed)
        }
    }

    /// No worker but `i` is inside its critical section.
    spec fn free_for(&self, i: usize) -> bool {
        self.holder is None || self.holder == Some(i)
    }

    /// A counter at `initial` and `count` workers that have just been
    /// spawned.
    fn spawn(initial: i32, count: usize) -> (crew: Crew)
        ensures
            crew.wf(),
            crew.initial == initial,
            crew.workers@.len() == count,
            crew.holder is None,
    {
        let mut workers: Vec<Incrementer> = Vec::new();
        while workers.len() < count
            invariant
                workers@.len() <= count,
                forall|i: int| 0 <= i < workers@.len() ==> workers@[i] == Incrementer::Waiting,
                written(workers@) == 0,
            decreases count - workers@.len(),
        {
            let ghost before = workers@;
            workers.push(Incrementer::Waiting);
            assert(workers@.drop_last() =~= before);
        }
        Crew { initial, counter: SharedCounter::new(initial), workers, holder: None }
    }

    /// One turn of worker `i`.
    fn turn(&mut self, i: usize)
        requires
            old(self).wf(),
            i < old(self).workers@.len(),
        ensures
            final(self).wf(),
            final(self).initial == old(self).initial,
            final(self).workers@.len() == old(self).workers@.len(),
            forall|j: int|
                0 <= j < old(self).workers@.len() && j != i ==> final(self).workers@[j] == old(
                    self,
                ).workers@[j],
            old(self).workers@[i as int].has_ended() ==> final(self).workers@[i as int] == old(
                self,
            ).workers@[i as int] && final(self).holder == old(self).holder,
            old(self).free_for(i) ==> {
                &&& final(self).free_for(i)
                &&& final(self).workers@[i as int].has_ended() ==> final(self).holder is None
                &&& old(self).workers@[i as int].has_ended() || turns_left(
                    final(self).workers@[i as int],
                ) < turns_left(old(self).workers@[i as int])
            },
    {
        let worker = self.workers[i];
        let next = worker.turn(&mut self.counter);
        self.workers.set(i, next);
        if next.is_holding() {
            self.holder = Some(i);
        } else if worker.is_holding() {
            self.holder = None;
        }
        proof {
            lemma_written_update(old(self).workers@, i as int, next);
            lemma_written_bound(old(self).workers@);
            assert(self.workers@ =~= old(self).workers@.update(i as int, next));
        }
    }

    /// Worker `i` runs until its body has ended, with no other worker in
    /// its way.
    fn finish(&mut self, i: usize)
        requires
            old(self).wf(),
            i < old(self).workers@.len(),
            old(self).free_for(i),
        ensures
            final(self).wf(),
            final(self).initial == old(self).initial,
            final(self).workers@.len() == old(self).workers@.len(),
            final(self).holder is None,
            final(self).workers@[i as int].has_ended(),
            forall|j: int|
                0 <= j < old(self).workers@.len() && old(self).workers@[j].has_ended()
                    ==> final(self).workers@[j].has_ended(),
    {
        while !self.workers[i].is_ended()
            invariant
                self.wf(),
                self.initial == old(self).initial,
                self.workers@.len() == old(self).workers@.len(),
                i < self.workers@.len(),
                self.free_for(i),
                forall|j: int|
                    0 <= j < old(self).workers@.len() && old(self).workers@[j].has_ended()
                        ==> self.workers@[j].has_ended(),
            decreases turns_left(self.workers@[i as int]),
        {
            self.turn(i);
        }
        if self.holder.is_some() {
            assert(self.workers@[i as int].holds_lock());
            unreached::<()>();
        }
    }
}

/// The value that `workers` increments leave in a counter that starts at
/// `initial`, if the integer has room for them all.
pub open spec fn total_after(initial: i32, workers: usize) -> Result<i32, WorkerFailure> {
    if initial + workers <= i32::MAX {
        Ok((initial + workers) as i32)
    } else {
        Err(WorkerFailure)
    }
}

/// Runs the shared-counter pattern under a schedule: the invoking thread
/// spawns `workers` workers that each add one to a counter starting at
/// `initial`, joins them all, and reads the counter under the lock.
///
/// Worker number `k`, counted from 1 in the order of the spawns, runs on the
/// turns of thread `k`. Each takes three steps: it acquires the lock and
/// reads, it writes, it releases. Whatever the schedule, no increment is
/// lost or doubled: the value read at the end is `initial + workers`.
///
/// Where the integer has no room for that many increments, the worker that
/// would take it over the top fails inside its critical section, the lock is
/// poisoned, and the failure comes back from the join.
pub fn run_incrementers(initial: i32, workers: usize, schedule: &Vec<ThreadId>) -> (total: Result<
    i32,
    WorkerFailure,
>)
    ensures
        total == total_after(initial, workers),
{
    let mut crew = Crew::spawn(initial, workers);
    let mut tick: usize = 0;
    while tick < schedule.len()
        invariant
            tick <= schedule.len(),
            crew.wf(),
            crew.initial == initial,
            crew.workers@.len() == workers,
        decreases schedule.len() - tick,
    {
        let turn = schedule[tick];
        if 1 <= turn && turn <= workers {
            crew.turn(turn - 1);
        }
        tick += 1;
    }
    match crew.holder {
        Some(holder) => {
            crew.finish(holder);
        },
        None => {},
    }
    let mut next: usize = 0;
    while next < workers
        invariant
            next <= workers,
            crew.wf(),
            crew.initial == initial,
            crew.workers@.len() == workers,
            crew.holder is None,
            forall|j: int| 0 <= j < next ==> (#[trigger] crew.workers@[j]).has_ended(),
        decreases workers - next,
    {
        crew.finish(next);
        next += 1;
    }
    let mut joined: usize = 0;
    while joined < workers
        invariant
            joined <= workers,
            crew.wf(),
            crew.initial == initial,
            crew.workers@.len() == workers,
            crew.holder is None,
            forall|j: int| 0 <= j < workers ==> (#[trigger] crew.workers@[j]).has_ended(),
            forall|j: int| 0 <= j < joined ==> (#[trigger] crew.workers@[j]) is Done,
        decreases workers - joined,
    {
        match crew.workers[joined] {
            Incrementer::Done => {},
            _ => {
                proof {
                    lemma_written_bound(crew.workers@);
                    assert(!crew.workers@[joined as int].has_written());
                }
                return Err(WorkerFailure);
            },
        }
        joined += 1;
    }
    proof {
        lemma_written_bound(crew.workers@);
    }
    match crew.counter.lock() {
        Poll::Ready(Ok(_)) => {
            let total = crew.counter.get();
            crew.counter.unlock();
            Ok(total)
        },
        _ => unreached(),
    }
}

} // verus!
