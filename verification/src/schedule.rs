//! Schedules: the order in which the threads of a run take their steps.
//!
//! A run is made of threads that each perform a fixed sequence of steps. What
//! the threads do together depends on who gets to run when. A schedule fixes
//! that: at every tick it names the thread that may take its next step. A
//! tick given to a thread that does not exist, has nothing left to do or is
//! blocked passes without effect, and once the schedule is used up the
//! threads finish one after the other, the workers first in the order they
//! were spawned.

use vstd::prelude::*;

verus! {

/// Names a thread of a run: 0 is the invoking thread, 1 the first worker it
/// spawned, 2 the second, and so on.
pub type ThreadId = usize;

/// The invoking thread.
pub const MAIN: ThreadId = 0;

/// The first worker spawned.
pub const FIRST: ThreadId = 1;

/// The second worker spawned.
pub const SECOND: ThreadId = 2;

/// What a blocking operation yields when it is attempted once: its result,
/// or the news that the caller has to wait for another thread to act.
#[derive(Debug, PartialEq, Eq)]
pub enum Poll<V> {
    /// The operation is done, with this result.
    Ready(V),
    /// Nothing has changed; the caller stays suspended.
    Pending,
}

/// The order in which the steps `a` of thread `ia` and the steps `b` of
/// thread `ib` are taken under `schedule`.
pub open spec fn interleave<T>(
    a: Seq<T>,
    b: Seq<T>,
    ia: ThreadId,
    ib: ThreadId,
    schedule: Seq<ThreadId>,
) -> Seq<T>
    decreases schedule.len(),
{
    if schedule.len() == 0 {
        a + b
    } else if schedule[0] == ia && a.len() > 0 {
        seq![a[0]] + interleave(a.skip(1), b, ia, ib, schedule.skip(1))
    } else if schedule[0] == ib && b.len() > 0 {
        seq![b[0]] + interleave(a, b.skip(1), ia, ib, schedule.skip(1))
    } else {
        interleave(a, b, ia, ib, schedule.skip(1))
    }
}

/// `merged` holds exactly the items of `a` and of `b`, those of `a` in the
/// order they have in `a` and those of `b` in the order they have in `b`.
pub open spec fn is_interleaving<T>(merged: Seq<T>, a: Seq<T>, b: Seq<T>) -> bool
    decreases merged.len(),
{
    if merged.len() == 0 {
        a.len() == 0 && b.len() == 0
    } else {
        ||| a.len() > 0 && merged[0] == a[0] && is_interleaving(merged.skip(1), a.skip(1), b)
        ||| b.len() > 0 && merged[0] == b[0] && is_interleaving(merged.skip(1), a, b.skip(1))
    }
}

/// A sequence is an interleaving of itself with nothing, on either side.
pub proof fn lemma_interleaving_with_nothing<T>(items: Seq<T>)
    ensures
        is_interleaving(items, items, Seq::empty()),
        is_interleaving(items, Seq::empty(), items),
    decreases items.len(),
{
    if items.len() > 0 {
        lemma_interleaving_with_nothing(items.skip(1));
    }
}

/// One sequence followed by another is an interleaving of the two.
pub proof fn lemma_concatenation_is_interleaving<T>(a: Seq<T>, b: Seq<T>)
    ensures
        is_interleaving(a + b, a, b),
    decreases a.len(),
{
    if a.len() == 0 {
        assert(a + b =~= b);
        assert(a =~= Seq::empty());
        lemma_interleaving_with_nothing(b);
    } else {
        lemma_concatenation_is_interleaving(a.skip(1), b);
        assert((a + b).skip(1) =~= a.skip(1) + b);
    }
}

/// An interleaving is as long as its two parts together.
pub proof fn lemma_interleaving_len<T>(merged: Seq<T>, a: Seq<T>, b: Seq<T>)
    requires
        is_interleaving(merged, a, b),
    ensures
        merged.len() == a.len() + b.len(),
    decreases merged.len(),
{
    if merged.len() > 0 {
        if a.len() > 0 && merged[0] == a[0] && is_interleaving(merged.skip(1), a.skip(1), b) {
            lemma_interleaving_len(merged.skip(1), a.skip(1), b);
        } else {
            lemma_interleaving_len(merged.skip(1), a, b.skip(1));
        }
    }
}

/// Whatever the schedule, what two threads do together is an interleaving of
/// what each does alone: nothing is lost or doubled, and each thread's steps
/// keep their order.
pub proof fn lemma_interleave_is_interleaving<T>(
    a: Seq<T>,
    b: Seq<T>,
    ia: ThreadId,
    ib: ThreadId,
    schedule: Seq<ThreadId>,
)
    ensures
        is_interleaving(interleave(a, b, ia, ib, schedule), a, b),
        interleave(a, b, ia, ib, schedule).len() == a.len() + b.len(),
    decreases schedule.len(),
{
    let merged = interleave(a, b, ia, ib, schedule);
    if schedule.len() == 0 {
        lemma_concatenation_is_interleaving(a, b);
    } else if schedule[0] == ia && a.len() > 0 {
        let rest = interleave(a.skip(1), b, ia, ib, schedule.skip(1));
        lemma_interleave_is_interleaving(a.skip(1), b, ia, ib, schedule.skip(1));
        assert(merged.skip(1) =~= rest);
    } else if schedule[0] == ib && b.len() > 0 {
        let rest = interleave(a, b.skip(1), ia, ib, schedule.skip(1));
        lemma_interleave_is_interleaving(a, b.skip(1), ia, ib, schedule.skip(1));
        assert(merged.skip(1) =~= rest);
    } else {
        lemma_interleave_is_interleaving(a, b, ia, ib, schedule.skip(1));
    }
    lemma_interleaving_len(merged, a, b);
}

/// A thread that runs beside one with nothing to do takes its steps in its
/// own order, whatever the schedule.
pub proof fn lemma_interleave_with_nothing<T>(
    items: Seq<T>,
    ia: ThreadId,
    ib: ThreadId,
    schedule: Seq<ThreadId>,
)
    ensures
        interleave(items, Seq::empty(), ia, ib, schedule) == items,
        interleave(Seq::empty(), items, ia, ib, schedule) == items,
    decreases schedule.len(),
{
    let nothing = Seq::<T>::empty();
    if schedule.len() == 0 {
        assert(items + nothing =~= items);
        assert(nothing + items =~= items);
    } else {
        lemma_interleave_with_nothing(items, ia, ib, schedule.skip(1));
        if items.len() > 0 {
            lemma_interleave_with_nothing(items.skip(1), ia, ib, schedule.skip(1));
            assert(seq![items[0]] + items.skip(1) =~= items);
        }
    }
}

} // verus!
