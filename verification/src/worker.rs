//! Workers, and the two ways of joining one: right after the spawn, or after
//! the invoking thread has done its own work.

use crate::schedule::{interleave, is_interleaving, lemma_interleave_is_interleaving,
    lemma_interleave_with_nothing, ThreadId, FIRST, MAIN};
use vstd::pervasive::unreached;
use vstd::prelude::*;

verus! {

/// A worker's body ended abnormally.
#[derive(Debug, Clone, Copy, PartialEq, Eq, Structural)]
pub struct WorkerFailure;

/// One unit of concurrent execution, from its spawn to the end of its body.
///
/// A worker is running until its body ends; from then on it holds the body's
/// outcome, which a join hands over.
#[derive(Debug, PartialEq, Eq)]
pub struct Worker<R> {
    outcome: Option<Result<R, WorkerFailure>>,
}

/// What an attempt to join a worker gives.
#[derive(Debug, PartialEq, Eq)]
pub enum Join<R> {
    /// The worker had finished: here is how its body ended.
    Joined(Result<R, WorkerFailure>),
    /// The worker is still running, so the caller stays blocked. The worker
    /// is handed back for the next attempt.
    Blocked(Worker<R>),
}

impl<R> Worker<R> {
    /// How the body ended; `None` while the worker is running.
    pub closed spec fn outcome(&self) -> Option<Result<R, WorkerFailure>> {
        self.outcome
    }

    /// The body has not ended yet.
    pub open spec fn is_running(&self) -> bool {
        self.outcome() is None
    }

    /// A worker that has just been started.
    pub fn spawn() -> (worker: Self)
        ensures
            worker.is_running(),
    {
        Worker { outcome: None }
    }

    /// Whether the body has ended.
    pub fn is_finished(&self) -> (finished: bool)
        ensures
            finished == !self.is_running(),
    {
        self.outcome.is_some()
    }

    /// The body ends: with `Ok` and its value when it returns, with `Err`
    /// when it fails. A body ends once, so the worker has to be running.
    pub fn finish(&mut self, outcome: Result<R, WorkerFailure>)
        requires
            old(self).is_running(),
        ensures
            final(self).outcome() == Some(outcome),
    {
        self.outcome = Some(outcome);
    }

    /// One attempt to join. A join goes through only once the worker has
    /// finished, and then hands over the body's outcome as it is: the value
    /// it returned, or its failure. Until then the caller is blocked.
    pub fn join(self) -> (attempt: Join<R>)
        ensures
            attempt == (match self.outcome() {
                Some(outcome) => Join::Joined(outcome),
                None => Join::Blocked(self),
            }),
    {
        match self.outcome {
            Some(outcome) => Join::Joined(outcome),
            None => Join::Blocked(Worker { outcome: None }),
        }
    }
}

/// What a worker does: the steps it takes, in order, and how it ends.
pub struct Body<T> {
    /// The steps, each leaving one entry in the run's log.
    pub steps: Vec<T>,
    /// Whether the body fails once its steps are taken, rather than return.
    pub panics: bool,
}

/// Where the invoking thread joins the worker it spawned.
#[derive(Debug, Clone, Copy, PartialEq, Eq, Structural)]
pub enum JoinOrder {
    /// Right after the spawn, before any of its own steps.
    First,
    /// After all of its own steps.
    Last,
}

/// How a body with this ending shows at the join.
pub open spec fn body_outcome(panics: bool) -> Result<(), WorkerFailure> {
    if panics {
        Err(WorkerFailure)
    } else {
        Ok(())
    }
}

/// The log of a run in which the invoking thread spawns one worker, takes
/// `main_steps` itself and joins the worker.
///
/// Joined first, the worker's steps all come before the invoking thread's,
/// whatever the schedule, and the invoking thread takes no step at all when
/// the join reports a failure. Joined last, the two threads' steps are
/// interleaved as the schedule has it.
pub open spec fn fire_and_join_log<T>(
    order: JoinOrder,
    steps: Seq<T>,
    panics: bool,
    main_steps: Seq<T>,
    schedule: Seq<ThreadId>,
) -> Seq<T> {
    match order {
        JoinOrder::First => if panics {
            steps
        } else {
            steps + main_steps
        },
        JoinOrder::Last => interleave(steps, main_steps, FIRST, MAIN, schedule),
    }
}

/// Moves the next step from `rest` to the end of `log`.
fn take_step<T>(rest: &mut Vec<T>, log: &mut Vec<T>)
    requires
        old(rest)@.len() > 0,
    ensures
        final(log)@ == old(log)@.push(old(rest)@[0]),
        final(rest)@ == old(rest)@.skip(1),
{
    let step = rest.remove(0);
    log.push(step);
    assert(rest@ =~= old(rest)@.skip(1));
}

/// One turn of a running worker: its next step, or the end of its body when
/// no step is left.
fn worker_turn<T>(worker: &mut Worker<()>, rest: &mut Vec<T>, log: &mut Vec<T>, panics: bool)
    requires
        old(worker).is_running(),
    ensures
        old(rest)@.len() > 0 ==> {
            &&& final(worker).is_running()
            &&& final(log)@ == old(log)@.push(old(rest)@[0])
            &&& final(rest)@ == old(rest)@.skip(1)
        },
        old(rest)@.len() == 0 ==> {
            &&& final(worker).outcome() == Some(body_outcome(panics))
            &&& final(log)@ == old(log)@
            &&& final(rest)@ == old(rest)@
        },
{
    if rest.len() > 0 {
        take_step(rest, log);
    } else if panics {
        worker.finish(Err(WorkerFailure));
    } else {
        worker.finish(Ok(()));
    }
}

/// A running worker takes all the steps it has left and ends.
fn worker_runs_out<T>(worker: &mut Worker<()>, rest: &mut Vec<T>, log: &mut Vec<T>, panics: bool)
    requires
        old(worker).is_running(),
    ensures
        final(worker).outcome() == Some(body_outcome(panics)),
        final(log)@ == old(log)@ + old(rest)@,
        final(rest)@.len() == 0,
{
    log.append(rest);
    if panics {
        worker.finish(Err(WorkerFailure));
    } else {
        worker.finish(Ok(()));
    }
}

/// The invoking thread's work after a join that came first: its own steps if
/// the worker returned, none if it failed.
fn after_join<T>(log: Vec<T>, main_steps: Vec<T>, joined: Result<(), WorkerFailure>) -> (run: (
    Vec<T>,
    Result<(), WorkerFailure>,
))
    ensures
        run.1 == joined,
        run.0@ == if joined is Ok {
            log@ + main_steps@
        } else {
            log@
        },
{
    let mut log = log;
    let mut main_steps = main_steps;
    if joined.is_ok() {
        log.append(&mut main_steps);
    }
    (log, joined)
}

fn join_first<T>(body: Body<T>, main_steps: Vec<T>, schedule: &Vec<ThreadId>) -> (run: (
    Vec<T>,
    Result<(), WorkerFailure>,
))
    ensures
        run.0@ == fire_and_join_log(
            JoinOrder::First,
            body.steps@,
            body.panics,
            main_steps@,
            schedule@,
        ),
        run.1 == body_outcome(body.panics),
{
    let panics = body.panics;
    let mut rest = body.steps;
    let mut log: Vec<T> = Vec::new();
    let mut worker: Worker<()> = Worker::spawn();
    let mut tick: usize = 0;
    while tick < schedule.len()
        invariant
            tick <= schedule.len(),
            log@ + rest@ == body.steps@,
            panics == body.panics,
            worker.is_running() || (rest@.len() == 0 && worker.outcome() == Some(
                body_outcome(panics),
            )),
        decreases schedule.len() - tick,
    {
        let turn = schedule[tick];
        if turn == FIRST {
            if !worker.is_finished() {
                let ghost before = (log@, rest@);
                worker_turn(&mut worker, &mut rest, &mut log, panics);
                assert(log@ + rest@ =~= before.0 + before.1);
            }
        } else if turn == MAIN {
            match worker.join() {
                Join::Joined(joined) => {
                    assert(log@ + rest@ =~= log@);
                    return after_join(log, main_steps, joined);
                },
                Join::Blocked(running) => {
                    worker = running;
                },
            }
        }
        tick += 1;
    }
    if !worker.is_finished() {
        worker_runs_out(&mut worker, &mut rest, &mut log, panics);
    } else {
        assert(log@ + rest@ =~= log@);
    }
    match worker.join() {
        Join::Joined(joined) => after_join(log, main_steps, joined),
        Join::Blocked(_) => unreached(),
    }
}

fn join_last<T>(body: Body<T>, main_steps: Vec<T>, schedule: &Vec<ThreadId>) -> (run: (
    Vec<T>,
    Result<(), WorkerFailure>,
))
    ensures
        run.0@ == fire_and_join_log(
            JoinOrder::Last,
            body.steps@,
            body.panics,
            main_steps@,
            schedule@,
        ),
        run.1 == body_outcome(body.panics),
{
    let panics = body.panics;
    let ghost whole = interleave(body.steps@, main_steps@, FIRST, MAIN, schedule@);
    let mut rest = body.steps;
    let mut main_rest = main_steps;
    let mut log: Vec<T> = Vec::new();
    let mut worker: Worker<()> = Worker::spawn();
    let mut tick: usize = 0;
    assert(schedule@.skip(0) =~= schedule@);
    assert(log@ + whole =~= whole);
    while tick < schedule.len()
        invariant
            tick <= schedule.len(),
            whole == interleave(body.steps@, main_steps@, FIRST, MAIN, schedule@),
            log@ + interleave(rest@, main_rest@, FIRST, MAIN, schedule@.skip(tick as int))
                == whole,
            panics == body.panics,
            worker.is_running() || (rest@.len() == 0 && worker.outcome() == Some(
                body_outcome(panics),
            )),
        decreases schedule.len() - tick,
    {
        let turn = schedule[tick];
        let ghost ahead = schedule@.skip(tick as int);
        let ghost before = (log@, rest@, main_rest@);
        assert(ahead[0] == turn);
        assert(ahead.skip(1) =~= schedule@.skip(tick + 1));
        if turn == FIRST {
            if !worker.is_finished() {
                worker_turn(&mut worker, &mut rest, &mut log, panics);
            }
        } else if turn == MAIN {
            if main_rest.len() > 0 {
                take_step(&mut main_rest, &mut log);
            } else {
                match worker.join() {
                    Join::Joined(joined) => {
                        proof {
                            assert(rest@ =~= Seq::empty());
                            assert(main_rest@ =~= Seq::empty());
                            lemma_interleave_with_nothing(Seq::<T>::empty(), FIRST, MAIN, ahead);
                            assert(log@ + Seq::<T>::empty() =~= log@);
                        }
                        return (log, joined);
                    },
                    Join::Blocked(running) => {
                        worker = running;
                    },
                }
            }
        }
        assert(log@ + interleave(rest@, main_rest@, FIRST, MAIN, ahead.skip(1)) =~= before.0
            + interleave(before.1, before.2, FIRST, MAIN, ahead));
        tick += 1;
    }
    proof {
        assert(schedule@.skip(tick as int).len() == 0);
        assert(log@ + (rest@ + main_rest@) =~= (log@ + rest@) + main_rest@);
    }
    if !worker.is_finished() {
        worker_runs_out(&mut worker, &mut rest, &mut log, panics);
    } else {
        assert(log@ + rest@ =~= log@);
    }
    log.append(&mut main_rest);
    match worker.join() {
        Join::Joined(joined) => (log, joined),
        Join::Blocked(_) => unreached(),
    }
}

/// Runs the fire-and-join pattern under a schedule: the invoking thread
/// spawns one worker with the given body, takes `main_steps` itself, and
/// joins the worker where `order` says. Returns the log of the steps in the
/// order they were taken, and what the join reported.
///
/// The worker runs on the turns of [`FIRST`], the invoking thread on those of
/// [`MAIN`]. A failure of the worker is never dropped: it comes back as the
/// join's result.
pub fn fire_and_join<T>(
    order: JoinOrder,
    body: Body<T>,
    main_steps: Vec<T>,
    schedule: &Vec<ThreadId>,
) -> (run: (Vec<T>, Result<(), WorkerFailure>))
    ensures
        run.0@ == fire_and_join_log(order, body.steps@, body.panics, main_steps@, schedule@),
        run.1 == body_outcome(body.panics),
        order == JoinOrder::Last ==> is_interleaving(run.0@, body.steps@, main_steps@),
{
    proof {
        lemma_interleave_is_interleaving(body.steps@, main_steps@, FIRST, MAIN, schedule@);
    }
    match order {
        JoinOrder::First => join_first(body, main_steps, schedule),
        JoinOrder::Last => join_last(body, main_steps, schedule),
    }
}

} // verus!
