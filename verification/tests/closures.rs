use concurrency_lessons::closures::{
    closure_usage_example, generate_workout, simulated_expensive_calculation,
    CacheFunctionFailure, Cacher, Workout,
};
use std::cell::Cell;

#[test]
fn first_call_computes_from_its_argument() {
    let mut c = Cacher::new(|a| a * 2);
    assert_eq!(c.value(21), 42);
}

#[test]
fn second_call_with_a_different_value_returns_the_first_result() {
    let mut c = Cacher::new(|a| a);
    let v1 = c.value(1);
    let v2 = c.value(2);
    assert_eq!(v1, 1);
    assert_eq!(v2, 1);
    assert_ne!(v2, 2);
}

#[test]
fn every_later_call_returns_the_first_result() {
    let mut c = Cacher::new(|a| a + 100);
    assert_eq!(c.value(5), 105);
    let mut arg: u32 = 0;
    while arg < 50 {
        assert_eq!(c.value(arg), 105);
        arg += 1;
    }
}

#[test]
fn calculation_is_invoked_once() {
    let calls = Cell::new(0u32);
    let mut c = Cacher::new(|a: u32| {
        calls.set(calls.get() + 1);
        a + 1
    });
    assert_eq!(calls.get(), 0);
    assert_eq!(c.value(7), 8);
    assert_eq!(calls.get(), 1);
    assert_eq!(c.value(7), 8);
    assert_eq!(c.value(9), 8);
    assert_eq!(c.value(0), 8);
    assert_eq!(calls.get(), 1);
}

#[test]
fn unused_cache_never_invokes_the_calculation() {
    let calls = Cell::new(0u32);
    let _c = Cacher::new(|a: u32| {
        calls.set(calls.get() + 1);
        a
    });
    assert_eq!(calls.get(), 0);
}

#[test]
fn failure_is_handed_on_and_leaves_the_slot_empty() {
    let calls = Cell::new(0u32);
    let mut c = Cacher::new(|a: u32| {
        calls.set(calls.get() + 1);
        if a % 2 == 0 {
            Ok(a + 1)
        } else {
            Err("odd")
        }
    });
    assert_eq!(c.try_value(3), Err(CacheFunctionFailure("odd")));
    assert_eq!(calls.get(), 1);
    assert_eq!(c.try_value(5), Err(CacheFunctionFailure("odd")));
    assert_eq!(calls.get(), 2);
    assert_eq!(c.try_value(4), Ok(5));
    assert_eq!(calls.get(), 3);
    assert_eq!(c.try_value(3), Ok(5));
    assert_eq!(c.try_value(8), Ok(5));
    assert_eq!(calls.get(), 3);
}

#[test]
fn expensive_calculation_returns_the_intensity() {
    assert_eq!(simulated_expensive_calculation(0), 0);
    assert_eq!(simulated_expensive_calculation(7), 7);
    assert_eq!(simulated_expensive_calculation(u32::MAX), u32::MAX);
}

#[test]
fn low_intensity_gives_strength_exercises() {
    assert_eq!(generate_workout(10, 7), Workout::Strength { pushups: 10, situps: 10 });
    assert_eq!(generate_workout(0, 3), Workout::Strength { pushups: 0, situps: 0 });
    assert_eq!(generate_workout(24, 3), Workout::Strength { pushups: 24, situps: 24 });
}

#[test]
fn high_intensity_with_random_three_is_a_rest_day() {
    assert_eq!(generate_workout(25, 3), Workout::Rest);
    assert_eq!(generate_workout(u32::MAX, 3), Workout::Rest);
}

#[test]
fn high_intensity_otherwise_is_a_run() {
    assert_eq!(generate_workout(25, 4), Workout::Run { minutes: 25 });
    assert_eq!(generate_workout(90, 0), Workout::Run { minutes: 90 });
}

#[test]
fn identity_closure_hands_the_string_back() {
    assert_eq!(closure_usage_example(), "hello");
}
