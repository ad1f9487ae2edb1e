//! A single-slot memoizing wrapper around a calculation, and a workout
//! planner that uses it.

use vstd::prelude::*;

verus! {

/// The wrapped calculation failed on the call that had to compute; the cause
/// it reported is carried along.
#[derive(Debug, PartialEq, Eq)]
pub struct CacheFunctionFailure<E>(pub E);

/// Wraps a calculation and remembers the first result it produced.
///
/// The slot is argument-insensitive: once it is filled, every later call
/// returns the stored result, also for an argument that differs from the one
/// it was computed from.
pub struct Cacher<T> {
    calculation: T,
    value: Option<u32>,
    calls: Ghost<nat>,
}

impl<T> Cacher<T> {
    /// The wrapped calculation, fixed at construction.
    pub closed spec fn calculation(&self) -> T {
        self.calculation
    }

    /// The stored result, if one has been computed.
    pub closed spec fn cached(&self) -> Option<u32> {
        self.value
    }

    /// How many times the calculation has been invoked through this cache.
    pub closed spec fn calls(&self) -> nat {
        self.calls@
    }

    /// A cache around `calculation` with no stored result.
    pub fn new(calculation: T) -> (cacher: Cacher<T>)
        ensures
            cacher.calculation() == calculation,
            cacher.cached() is None,
            cacher.calls() == 0,
    {
        Cacher { calculation, value: None, calls: Ghost(0) }
    }
}

impl<T: Fn(u32) -> u32> Cacher<T> {
    /// What one call of [`Cacher::value`] does: `before` and `after` are the
    /// cache around the call, `result` is what the call returned.
    ///
    /// On an empty slot the calculation runs once on `arg` and its result is
    /// stored; on a filled slot the stored result comes back and the
    /// calculation does not run.
    pub open spec fn value_step(before: Self, arg: u32, result: u32, after: Self) -> bool {
        &&& after.calculation() == before.calculation()
        &&& after.cached() == Some(result)
        &&& match before.cached() {
            Some(stored) => result == stored && after.calls() == before.calls(),
            None => before.calculation().ensures((arg,), result) && after.calls()
                == before.calls() + 1,
        }
    }

    /// Returns the stored result, computing and storing it first if the slot
    /// is empty.
    ///
    /// The calculation's own precondition is asked for only while the slot is
    /// empty: on a filled slot any argument is accepted, because the
    /// calculation is not invoked.
    pub fn value(&mut self, arg: u32) -> (result: u32)
        requires
            old(self).cached() is None ==> old(self).calculation().requires((arg,)),
        ensures
            Self::value_step(*old(self), arg, result, *final(self)),
    {
        match self.value {
            Some(v) => v,
            None => {
                let v = (self.calculation)(arg);
                self.value = Some(v);
                proof {
                    self.calls@ = self.calls@ + 1;
                }
                v
            },
        }
    }

    /// After a first call on an empty cache, a second call returns the first
    /// call's result, whatever its argument.
    pub proof fn lemma_second_call_returns_first(
        fresh: Self,
        a: u32,
        first: u32,
        filled: Self,
        b: u32,
        second: u32,
        after: Self,
    )
        requires
            fresh.cached() is None,
            Self::value_step(fresh, a, first, filled),
            Self::value_step(filled, b, second, after),
        ensures
            fresh.calculation().ensures((a,), first),
            second == first,
            after.cached() == Some(first),
    {
    }

    /// Over any run of calls that starts on a new cache, the calculation is
    /// invoked exactly once, by the first call, and every call returns what
    /// that invocation produced.
    pub proof fn lemma_calculation_runs_once(
        states: Seq<Self>,
        args: Seq<u32>,
        results: Seq<u32>,
    )
        requires
            args.len() > 0,
            results.len() == args.len(),
            states.len() == args.len() + 1,
            states[0].cached() is None,
            states[0].calls() == 0,
            forall|i: int|
                0 <= i < args.len() ==> Self::value_step(
                    #[trigger] states[i],
                    args[i],
                    results[i],
                    states[i + 1],
                ),
        ensures
            states[0].calculation().ensures((args[0],), results[0]),
            forall|i: int| 0 <= i < results.len() ==> #[trigger] results[i] == results[0],
            forall|i: int| 1 <= i < states.len() ==> (#[trigger] states[i]).calls() == 1,
        decreases args.len(),
    {
        if args.len() > 1 {
            let n = args.len() - 1;
            Self::lemma_calculation_runs_once(
                states.take(n + 1),
                args.take(n),
                results.take(n),
            );
            assert(states.take(n + 1)[n] == states[n]);
            assert(results.take(n)[0] == results[0]);
            assert(Self::value_step(states[n], args[n], results[n], states[n + 1]));
            assert(Self::value_step(states[n - 1], args[n - 1], results[n - 1], states[n]));
            assert forall|i: int| 0 <= i < results.len() implies #[trigger] results[i]
                == results[0] by {
                if i < n {
                    assert(results.take(n)[i] == results[i]);
                } else {
                    assert(results.take(n)[n - 1] == results[n - 1]);
                }
            }
            assert forall|i: int| 1 <= i < states.len() implies (#[trigger] states[i]).calls()
                == 1 by {
                if i <= n {
                    assert(states.take(n + 1)[i] == states[i]);
                }
            }
        } else {
            assert(Self::value_step(states[0], args[0], results[0], states[1]));
        }
    }
}

impl<T, E> Cacher<T> where T: Fn(u32) -> Result<u32, E> {
    /// What one call of [`Cacher::try_value`] does, for a calculation that
    /// can fail.
    ///
    /// On an empty slot the calculation runs once on `arg`. Its success is
    /// stored and returned. Its failure is handed to the caller and the slot
    /// stays empty, so that a later call computes again. On a filled slot the
    /// stored result comes back and the calculation does not run.
    pub open spec fn try_value_step(
        before: Self,
        arg: u32,
        result: Result<u32, CacheFunctionFailure<E>>,
        after: Self,
    ) -> bool {
        &&& after.calculation() == before.calculation()
        &&& match before.cached() {
            Some(stored) => {
                &&& result == Ok::<u32, CacheFunctionFailure<E>>(stored)
                &&& after.cached() == Some(stored)
                &&& after.calls() == before.calls()
            },
            None => {
                &&& after.calls() == before.calls() + 1
                &&& match result {
                    Ok(computed) => {
                        &&& before.calculation().ensures((arg,), Ok(computed))
                        &&& after.cached() == Some(computed)
                    },
                    Err(failure) => {
                        &&& before.calculation().ensures((arg,), Err(failure.0))
                        &&& after.cached() is None
                    },
                }
            },
        }
    }

    /// Returns the stored result, or computes it if the slot is empty.
    ///
    /// Only a success is stored. A failure of the calculation is returned as
    /// it came and leaves the slot empty: nothing is retried here, and the
    /// next call computes again.
    pub fn try_value(&mut self, arg: u32) -> (result: Result<u32, CacheFunctionFailure<E>>)
        requires
            old(self).cached() is None ==> old(self).calculation().requires((arg,)),
        ensures
            Self::try_value_step(*old(self), arg, result, *final(self)),
    {
        match self.value {
            Some(v) => Ok(v),
            None => {
                let outcome = (self.calculation)(arg);
                proof {
                    self.calls@ = self.calls@ + 1;
                }
                match outcome {
                    Ok(v) => {
                        self.value = Some(v);
                        Ok(v)
                    },
                    Err(cause) => Err(CacheFunctionFailure(cause)),
                }
            },
        }
    }
}

/// The result of the slow calculation: the intensity it was given.
pub fn simulated_expensive_calculation(intensity: u32) -> (result: u32)
    ensures
        result == intensity,
{
    intensity
}

/// What a workout consists of.
#[derive(Debug, Clone, Copy, PartialEq, Eq, Structural)]
pub enum Workout {
    /// Push-ups first, then sit-ups.
    Strength { pushups: u32, situps: u32 },
    /// No exercise today.
    Rest,
    /// A run of so many minutes.
    Run { minutes: u32 },
}

/// The workout for an intensity and a random number: below intensity 25,
/// strength exercises; from 25 on, a rest day when the random number is 3 and
/// a run otherwise. Every count is the intensity itself.
pub open spec fn workout_for(intensity: u32, random_number: u32) -> Workout {
    if intensity < 25 {
        Workout::Strength { pushups: intensity, situps: intensity }
    } else if random_number == 3 {
        Workout::Rest
    } else {
        Workout::Run { minutes: intensity }
    }
}

/// Plans a workout. The counts come from one cached calculation, which runs
/// at most once per plan and not at all on a rest day.
pub fn generate_workout(intensity: u32, random_number: u32) -> (plan: Workout)
    ensures
        plan == workout_for(intensity, random_number),
{
    let calculation = |num: u32| -> (result: u32)
        ensures
            result == num,
        { simulated_expensive_calculation(num) };
    let mut expensive_result = Cacher::new(calculation);
    if intensity < 25 {
        let pushups = expensive_result.value(intensity);
        let situps = expensive_result.value(intensity);
        Workout::Strength { pushups, situps }
    } else {
        if random_number == 3 {
            Workout::Rest
        } else {
            Workout::Run { minutes: expensive_result.value(intensity) }
        }
    }
}

/// Passes a string through the identity closure and returns it.
pub fn closure_usage_example() -> (s: String)
    ensures
        s@ == "hello"@,
{
    let example_closure = |x: String| -> (same: String)
        ensures
            same == x,
        { x };
    example_closure("hello".to_owned())
}

} // verus!
