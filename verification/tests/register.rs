use counter_service::data::counter::{CounterOp, CounterState};
use counter_service::shared::Counter;

#[test]
fn fresh_register_is_uninitialized() {
    let c = CounterState::default();
    assert!(!c.initialized());
}

#[test]
fn counter_default_is_zero() {
    let c = Counter::default();
    assert_eq!(c.count, 0);
}

#[test]
fn get_before_init_fails() {
    let c = CounterState::default();
    let r = c.get();
    assert_eq!(r.unwrap_err().reason(), "Counter has not been initialized.");
}

#[test]
fn increment_before_init_fails_and_does_not_mutate() {
    let mut c = CounterState::default();
    let r = c.increment();
    assert_eq!(r.unwrap_err().reason(), "Counter has not been initialized.");
    assert!(!c.initialized());
    assert!(c.get().is_err());
}

#[test]
fn decrement_before_init_fails_and_does_not_mutate() {
    let mut c = CounterState::default();
    let r = c.decrement();
    assert_eq!(r.unwrap_err().reason(), "Counter has not been initialized.");
    assert!(!c.initialized());
}

#[test]
fn init_succeeds_once_then_conflicts() {
    let mut c = CounterState::default();
    assert_eq!(c.init().unwrap(), 0);
    assert!(c.initialized());
    let second = c.init();
    assert_eq!(second.unwrap_err().reason(), "Counter already initialized.");
    assert_eq!(c.get().unwrap(), 0);
    let third = c.init();
    assert_eq!(third.unwrap_err().reason(), "Counter already initialized.");
    assert_eq!(c.get().unwrap(), 0);
}

#[test]
fn get_after_init_returns_zero() {
    let mut c = CounterState::default();
    c.init().unwrap();
    assert_eq!(c.get().unwrap(), 0);
}

#[test]
fn increment_then_decrement_round_trips() {
    let mut c = CounterState::with_count(5);
    assert_eq!(c.increment().unwrap(), 6);
    assert_eq!(c.decrement().unwrap(), 5);
    assert_eq!(c.get().unwrap(), 5);
}

#[test]
fn decrement_then_increment_round_trips() {
    let mut c = CounterState::with_count(-7);
    assert_eq!(c.decrement().unwrap(), -8);
    assert_eq!(c.increment().unwrap(), -7);
    assert_eq!(c.get().unwrap(), -7);
}

#[test]
fn increment_stops_at_maximum() {
    let mut c = CounterState::with_count(i32::MAX - 1);
    assert_eq!(c.increment().unwrap(), i32::MAX);
    let overflow = c.increment();
    assert_eq!(overflow.unwrap_err().reason(), "Reached maximum value.");
    assert_eq!(c.get().unwrap(), i32::MAX);
    let again = c.increment();
    assert_eq!(again.unwrap_err().reason(), "Reached maximum value.");
    assert_eq!(c.get().unwrap(), i32::MAX);
}

#[test]
fn decrement_stops_at_minimum() {
    let mut c = CounterState::with_count(i32::MIN + 1);
    assert_eq!(c.decrement().unwrap(), i32::MIN);
    let underflow = c.decrement();
    assert_eq!(underflow.unwrap_err().reason(), "Reached minimum value.");
    assert_eq!(c.get().unwrap(), i32::MIN);
}

#[test]
fn compute_dispatches_both_operations() {
    let mut c = CounterState::with_count(1);
    assert_eq!(c.compute(CounterOp::Increment).unwrap(), 2);
    assert_eq!(c.compute(CounterOp::Decrement).unwrap(), 1);
}

#[test]
fn set_default_resets_to_zero() {
    let mut c = CounterState::with_count(41);
    c.set_default();
    assert!(c.initialized());
    assert_eq!(c.get().unwrap(), 0);
}

#[test]
fn many_increments_lose_no_update() {
    let mut c = CounterState::with_count(100);
    for i in 0..1000 {
        assert_eq!(c.increment().unwrap(), 101 + i);
    }
    assert_eq!(c.get().unwrap(), 1100);
}
