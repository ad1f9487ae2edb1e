use concurrency_lessons::concurrency::{mutex_example, shared_mutex_thread_example};
use concurrency_lessons::counter::{run_incrementers, Incrementer, LockFailure, SharedCounter};
use concurrency_lessons::schedule::{Poll, MAIN};
use concurrency_lessons::worker::WorkerFailure;

fn read(counter: &mut SharedCounter) -> i32 {
    assert_eq!(counter.lock(), Poll::Ready(Ok(())));
    let value = counter.get();
    counter.unlock();
    value
}

#[test]
fn new_counter_holds_its_initial_value() {
    let mut c = SharedCounter::new(5);
    assert_eq!(read(&mut c), 5);
}

#[test]
fn held_lock_makes_others_wait() {
    let mut c = SharedCounter::new(0);
    assert_eq!(c.lock(), Poll::Ready(Ok(())));
    assert_eq!(c.lock(), Poll::Pending);
    assert_eq!(c.lock(), Poll::Pending);
    c.unlock();
    assert_eq!(c.lock(), Poll::Ready(Ok(())));
}

#[test]
fn write_under_the_lock_is_read_back() {
    let mut c = SharedCounter::new(0);
    assert_eq!(c.lock(), Poll::Ready(Ok(())));
    c.set(41);
    assert_eq!(c.get(), 41);
    c.unlock();
    assert_eq!(read(&mut c), 41);
}

#[test]
fn abandoned_lock_is_poisoned() {
    let mut c = SharedCounter::new(3);
    assert_eq!(c.lock(), Poll::Ready(Ok(())));
    c.abandon();
    assert_eq!(c.lock(), Poll::Ready(Err(LockFailure)));
    assert_eq!(c.lock(), Poll::Ready(Err(LockFailure)));
}

#[test]
fn incrementer_takes_three_steps() {
    let mut c = SharedCounter::new(7);
    let w = Incrementer::Waiting;
    let w = w.turn(&mut c);
    assert_eq!(w, Incrementer::Holding(7));
    assert!(w.is_holding());
    let w = w.turn(&mut c);
    assert_eq!(w, Incrementer::Wrote);
    assert!(!w.is_ended());
    let w = w.turn(&mut c);
    assert_eq!(w, Incrementer::Done);
    assert!(w.is_ended());
    assert_eq!(w.turn(&mut c), Incrementer::Done);
    assert_eq!(read(&mut c), 8);
}

#[test]
fn incrementer_waits_for_a_held_lock() {
    let mut c = SharedCounter::new(0);
    let a = Incrementer::Waiting.turn(&mut c);
    assert_eq!(a, Incrementer::Holding(0));
    let b = Incrementer::Waiting.turn(&mut c);
    assert_eq!(b, Incrementer::Waiting);
    let a = a.turn(&mut c).turn(&mut c);
    assert_eq!(a, Incrementer::Done);
    let b = b.turn(&mut c);
    assert_eq!(b, Incrementer::Holding(1));
    let b = b.turn(&mut c).turn(&mut c);
    assert_eq!(b, Incrementer::Done);
    assert_eq!(read(&mut c), 2);
}

#[test]
fn incrementer_fails_on_a_poisoned_lock() {
    let mut c = SharedCounter::new(0);
    assert_eq!(c.lock(), Poll::Ready(Ok(())));
    c.abandon();
    let w = Incrementer::Waiting.turn(&mut c);
    assert_eq!(w, Incrementer::Failed);
    assert!(w.is_ended());
    assert_eq!(w.turn(&mut c), Incrementer::Failed);
}

#[test]
fn increment_past_the_top_fails_and_poisons() {
    let mut c = SharedCounter::new(i32::MAX);
    let w = Incrementer::Waiting.turn(&mut c);
    assert_eq!(w, Incrementer::Holding(i32::MAX));
    assert_eq!(w.turn(&mut c), Incrementer::Failed);
    assert_eq!(c.lock(), Poll::Ready(Err(LockFailure)));
}

#[test]
fn mutex_example_leaves_six() {
    let mut m = mutex_example();
    assert_eq!(read(&mut m), 6);
}

#[test]
fn ten_incrementers_from_zero_give_ten() {
    assert_eq!(shared_mutex_thread_example(&vec![]), 10);
    assert_eq!(shared_mutex_thread_example(&vec![MAIN; 5]), 10);
    assert_eq!(shared_mutex_thread_example(&vec![3, 1, 3, 2, 1, 10, 10, 10, 11, 4]), 10);
}

#[test]
fn ten_incrementers_give_ten_in_a_thousand_trials() {
    let mut seed: u64 = 2024;
    let mut trial = 0;
    while trial < 1000 {
        let mut schedule = Vec::new();
        let length = trial % 60;
        let mut k = 0;
        while k < length {
            seed = seed.wrapping_mul(6364136223846793005).wrapping_add(1442695040888963407);
            schedule.push(((seed >> 33) % 12) as usize);
            k += 1;
        }
        assert_eq!(shared_mutex_thread_example(&schedule), 10);
        assert_eq!(run_incrementers(0, 10, &schedule), Ok(10));
        trial += 1;
    }
}

#[test]
fn every_increment_counts_from_any_start() {
    assert_eq!(run_incrementers(5, 0, &vec![1, 2, 3]), Ok(5));
    assert_eq!(run_incrementers(-3, 7, &vec![7, 7, 1, 1, 2, 6, 6, 6]), Ok(4));
    assert_eq!(run_incrementers(i32::MAX - 3, 3, &vec![2, 1, 2, 3, 2]), Ok(i32::MAX));
    assert_eq!(run_incrementers(i32::MIN, 2, &vec![]), Ok(i32::MIN + 2));
}

#[test]
fn increments_beyond_the_top_surface_as_worker_failure() {
    assert_eq!(run_incrementers(i32::MAX, 1, &vec![]), Err(WorkerFailure));
    assert_eq!(run_incrementers(i32::MAX - 3, 4, &vec![4, 4, 4, 1, 2]), Err(WorkerFailure));
    assert_eq!(run_incrementers(i32::MAX - 1, 3, &vec![3, 2, 1, 3, 2, 1]), Err(WorkerFailure));
}
