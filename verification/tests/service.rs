use counter_service::api::counter::{
    get_counter, post_counter, post_counter_decrement, post_counter_increment, post_counter_init,
};
use counter_service::data::counter::{CounterOp, CounterState};
use counter_service::data::error::{serialization_error_response, Error};

#[test]
fn scenario_init_count_and_conflict() {
    let mut c = CounterState::default();

    let r = post_counter_init(&mut c);
    assert_eq!(r.status, 200);
    assert_eq!(r.body, "{\"count\":0}");

    let r = post_counter_increment(&mut c);
    assert_eq!(r.status, 200);
    assert_eq!(r.body, "{\"count\":1}");

    let r = post_counter_increment(&mut c);
    assert_eq!(r.status, 200);
    assert_eq!(r.body, "{\"count\":2}");

    let r = post_counter_decrement(&mut c);
    assert_eq!(r.status, 200);
    assert_eq!(r.body, "{\"count\":1}");

    let r = get_counter(&c);
    assert_eq!(r.status, 200);
    assert_eq!(r.body, "{\"count\":1}");

    let r = post_counter_init(&mut c);
    assert_eq!(r.status, 409);
    assert_eq!(r.body, "\"Counter already initialized.\"");
}

#[test]
fn read_before_init_conflicts() {
    let c = CounterState::default();
    let r = get_counter(&c);
    assert_eq!(r.status, 409);
    assert_eq!(r.body, "\"Counter is not initialized!\"");
}

#[test]
fn mutation_before_init_conflicts() {
    let mut c = CounterState::default();
    let r = post_counter_increment(&mut c);
    assert_eq!(r.status, 409);
    assert_eq!(r.body, "\"Counter has not been initialized.\"");
    let r = post_counter_decrement(&mut c);
    assert_eq!(r.status, 409);
    assert_eq!(r.body, "\"Counter has not been initialized.\"");
    assert!(!c.initialized());
}

#[test]
fn increment_conflict_at_maximum() {
    let mut c = CounterState::with_count(i32::MAX);
    let r = post_counter_increment(&mut c);
    assert_eq!(r.status, 409);
    assert_eq!(r.body, "\"Reached maximum value.\"");
    let r = get_counter(&c);
    assert_eq!(r.status, 200);
    assert_eq!(r.body, format!("{{\"count\":{}}}", i32::MAX));
}

#[test]
fn decrement_conflict_at_minimum() {
    let mut c = CounterState::with_count(i32::MIN);
    let r = post_counter_decrement(&mut c);
    assert_eq!(r.status, 409);
    assert_eq!(r.body, "\"Reached minimum value.\"");
    let r = get_counter(&c);
    assert_eq!(r.status, 200);
    assert_eq!(r.body, format!("{{\"count\":{}}}", i32::MIN));
}

#[test]
fn post_counter_takes_the_operation() {
    let mut c = CounterState::with_count(9);
    let r = post_counter(&mut c, CounterOp::Decrement);
    assert_eq!(r.status, 200);
    assert_eq!(r.body, "{\"count\":8}");
}

#[test]
fn response_reads_without_mutating() {
    let c = CounterState::with_count(3);
    let r = c.response();
    assert_eq!(r.status, 200);
    assert_eq!(r.body, "{\"count\":3}");
    assert_eq!(c.get().unwrap(), 3);
}

#[test]
fn error_maps_to_chosen_status() {
    let e = Error::new(String::from("Counter has not been initialized."));
    assert_eq!(e.reason(), "Counter has not been initialized.");
    let r = e.into_response(409);
    assert_eq!(r.status, 409);
    assert_eq!(r.body, "\"Counter has not been initialized.\"");
}

#[test]
fn serialization_failure_degrades_to_internal_error() {
    let r = serialization_error_response();
    assert_eq!(r.status, 500);
    assert_eq!(r.body, "\"Failed to serialize struct!\"");
}
