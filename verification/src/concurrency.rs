//! The worked examples: each spawns its workers, lets them run under a
//! schedule, and returns what the run shows.

use crate::channel::{fan_in, receive_one, stream};
use crate::counter::{run_incrementers, SharedCounter};
use crate::schedule::{interleave, is_interleaving, lemma_interleave_is_interleaving,
    lemma_interleave_with_nothing, Poll, ThreadId, FIRST, MAIN, SECOND};
use crate::worker::{fire_and_join, Body, JoinOrder};
use vstd::pervasive::unreached;
use vstd::prelude::*;

verus! {

/// Which thread said a line.
#[derive(Debug, Clone, Copy, PartialEq, Eq, Structural)]
pub enum Speaker {
    /// The spawned worker.
    Spawned,
    /// The invoking thread.
    Main,
}

/// One greeting: "hi number `number` from the `speaker` thread".
#[derive(Debug, Clone, Copy, PartialEq, Eq, Structural)]
pub struct Line {
    pub speaker: Speaker,
    pub number: u32,
}

/// The greetings numbered 1 to `count` of one speaker.
pub open spec fn greetings(speaker: Speaker, count: u32) -> Seq<Line> {
    Seq::new(count as nat, |i: int| Line { speaker, number: (i + 1) as u32 })
}

/// The greetings of the spawned worker: numbers 1 to 9.
pub open spec fn spawned_greetings() -> Seq<Line> {
    greetings(Speaker::Spawned, 9)
}

/// The greetings of the invoking thread: numbers 1 to 4.
pub open spec fn main_greetings() -> Seq<Line> {
    greetings(Speaker::Main, 4)
}

/// Writes out the greetings numbered 1 to `count` of one speaker.
pub fn greet(speaker: Speaker, count: u32) -> (lines: Vec<Line>)
    ensures
        lines@ == greetings(speaker, count),
{
    let mut lines: Vec<Line> = Vec::new();
    let mut said: u32 = 0;
    while said < count
        invariant
            said <= count,
            lines@.len() == said,
            forall|i: int|
                0 <= i < said ==> lines@[i] == (Line { speaker, number: (i + 1) as u32 }),
        decreases count - said,
    {
        said += 1;
        lines.push(Line { speaker, number: said });
    }
    assert(lines@ =~= greetings(speaker, count));
    lines
}

/// A worker and the invoking thread greet side by side; the worker is
/// joined last. Returns the greetings in the order they were said: the two
/// threads' lines interleaved as the schedule has it, each thread's own
/// lines in order and none missing. When the join has returned, all of the
/// worker's lines are there.
pub fn thread_example_one(schedule: &Vec<ThreadId>) -> (log: Vec<Line>)
    ensures
        log@ == interleave(spawned_greetings(), main_greetings(), FIRST, MAIN, schedule@),
        is_interleaving(log@, spawned_greetings(), main_greetings()),
{
    let body = Body { steps: greet(Speaker::Spawned, 9), panics: false };
    let run = fire_and_join(JoinOrder::Last, body, greet(Speaker::Main, 4), schedule);
    run.0
}

/// A worker greets, and the invoking thread joins it before greeting
/// itself. Returns the greetings in the order they were said: whatever the
/// schedule, all of the worker's come before any of the invoking thread's.
pub fn thread_example_two(schedule: &Vec<ThreadId>) -> (log: Vec<Line>)
    ensures
        log@ == spawned_greetings() + main_greetings(),
{
    let body = Body { steps: greet(Speaker::Spawned, 9), panics: false };
    let run = fire_and_join(JoinOrder::First, body, greet(Speaker::Main, 4), schedule);
    run.0
}

/// A vector is moved into a worker, which shows it; the invoking thread,
/// which has given the vector away, only joins. Returns the vector as the
/// worker showed it.
pub fn move_thread_example(schedule: &Vec<ThreadId>) -> (shown: Vec<i32>)
    ensures
        shown@ == seq![1i32, 2i32, 3i32],
{
    let v: Vec<i32> = vec![1, 2, 3];
    let ghost moved = v;
    let mut steps: Vec<Vec<i32>> = Vec::new();
    steps.push(v);
    let nothing: Vec<Vec<i32>> = Vec::new();
    let body = Body { steps, panics: false };
    proof {
        lemma_interleave_with_nothing(seq![moved], FIRST, MAIN, schedule@);
        assert(body.steps@ =~= seq![moved]);
        assert(nothing@ =~= Seq::empty());
    }
    let run = fire_and_join(JoinOrder::Last, body, nothing, schedule);
    let mut log = run.0;
    log.remove(0)
}

/// What each string of a sequence says.
pub open spec fn texts(strings: Seq<String>) -> Seq<Seq<char>> {
    strings.map_values(|s: String| s@)
}

/// The messages of the first producer.
pub open spec fn first_messages() -> Seq<Seq<char>> {
    seq!["hi"@, "from"@, "the"@, "thread"@]
}

/// The messages of the second producer.
pub open spec fn second_messages() -> Seq<Seq<char>> {
    seq!["more"@, "messages"@, "for"@, "you"@]
}

/// Writes out the messages of the first producer.
pub fn first_script() -> (script: Vec<String>)
    ensures
        texts(script@) == first_messages(),
{
    let mut script: Vec<String> = Vec::new();
    script.push("hi".to_owned());
    script.push("from".to_owned());
    script.push("the".to_owned());
    script.push("thread".to_owned());
    assert(texts(script@) =~= first_messages());
    script
}

/// Writes out the messages of the second producer.
pub fn second_script() -> (script: Vec<String>)
    ensures
        texts(script@) == second_messages(),
{
    let mut script: Vec<String> = Vec::new();
    script.push("more".to_owned());
    script.push("messages".to_owned());
    script.push("for".to_owned());
    script.push("you".to_owned());
    assert(texts(script@) =~= second_messages());
    script
}

/// A producer sends one message, "hi", and the invoking thread receives it
/// with a single blocking receive. Returns the message received.
pub fn message_passing_example(schedule: &Vec<ThreadId>) -> (received: String)
    ensures
        received@ == "hi"@,
{
    match receive_one(Some("hi".to_owned()), schedule) {
        Ok(received) => received,
        Err(_) => unreached(),
    }
}

/// A producer sends four messages one after the other, and the invoking
/// thread iterates over what arrives. Returns the messages received:
/// whatever the schedule, the four that were sent, in the order they were
/// sent.
pub fn message_passing_example_two(schedule: &Vec<ThreadId>) -> (received: Vec<String>)
    ensures
        texts(received@) == first_messages(),
{
    stream(first_script(), schedule)
}

/// Mapping every item commutes with interleaving.
proof fn lemma_interleave_texts(
    a: Seq<String>,
    b: Seq<String>,
    ia: ThreadId,
    ib: ThreadId,
    schedule: Seq<ThreadId>,
)
    ensures
        texts(interleave(a, b, ia, ib, schedule)) == interleave(
            texts(a),
            texts(b),
            ia,
            ib,
            schedule,
        ),
    decreases schedule.len(),
{
    let merged = interleave(a, b, ia, ib, schedule);
    if schedule.len() == 0 {
        assert(texts(a + b) =~= texts(a) + texts(b));
    } else if schedule[0] == ia && a.len() > 0 {
        lemma_interleave_texts(a.skip(1), b, ia, ib, schedule.skip(1));
        assert(texts(a.skip(1)) =~= texts(a).skip(1));
        assert(texts(merged) =~= seq![texts(a)[0]] + texts(
            interleave(a.skip(1), b, ia, ib, schedule.skip(1)),
        ));
    } else if schedule[0] == ib && b.len() > 0 {
        lemma_interleave_texts(a, b.skip(1), ia, ib, schedule.skip(1));
        assert(texts(b.skip(1)) =~= texts(b).skip(1));
        assert(texts(merged) =~= seq![texts(b)[0]] + texts(
            interleave(a, b.skip(1), ia, ib, schedule.skip(1)),
        ));
    } else {
        lemma_interleave_texts(a, b, ia, ib, schedule.skip(1));
    }
}

/// Two producers, each with its own sender handle, send four messages each,
/// and the invoking thread iterates over what arrives. Returns the messages
/// received: all eight, each producer's in the order it sent them, the two
/// producers' messages interleaved as the schedule has it.
pub fn multi_message_sending_example(schedule: &Vec<ThreadId>) -> (received: Vec<String>)
    ensures
        texts(received@) == interleave(
            first_messages(),
            second_messages(),
            FIRST,
            SECOND,
            schedule@,
        ),
        is_interleaving(texts(received@), first_messages(), second_messages()),
        received@.len() == 8,
{
    let first = first_script();
    let second = second_script();
    proof {
        lemma_interleave_texts(first@, second@, FIRST, SECOND, schedule@);
        lemma_interleave_is_interleaving(
            first_messages(),
            second_messages(),
            FIRST,
            SECOND,
            schedule@,
        );
    }
    fan_in(first, second, schedule)
}

/// A counter that starts at 5 is locked, set to 6 and unlocked. Returns the
/// counter: it holds 6, and its lock is free and sound.
pub fn mutex_example() -> (m: SharedCounter)
    ensures
        m.value() == 6,
        !m.is_held(),
        !m.is_poisoned(),
{
    let mut m = SharedCounter::new(5);
    match m.lock() {
        Poll::Ready(Ok(_)) => {
            m.set(6);
            m.unlock();
        },
        _ => {
            unreached::<()>();
        },
    }
    m
}

/// Ten workers each add one to a shared counter that starts at 0; the
/// invoking thread joins them all and reads the counter. Returns the value
/// read: 10, whatever the schedule.
pub fn shared_mutex_thread_example(schedule: &Vec<ThreadId>) -> (result: i32)
    ensures
        result == 10,
{
    match run_incrementers(0, 10, schedule) {
        Ok(result) => result,
        Err(_) => unreached(),
    }
}

} // verus!
