//! Handlers for the counter routes: each performs exactly one register
//! operation and reports the outcome; there is no retry logic.

use vstd::prelude::*;
use vstd::string::StringExecFns;

use crate::api::ApiResponse;
use crate::data::counter::{fault_reason, step, Action, CounterOp, CounterState};
use crate::data::error::Error;
use crate::json::{counter_body, json_string};

verus! {

/// The response a mutating handler owes for performing `a` on a register in
/// state `s`: the new count as the success payload, or a conflict carrying
/// the fault's reason.
pub open spec fn service_response(s: Option<int>, a: Action, r: ApiResponse) -> bool {
    match step(s, a).1 {
        Result::Ok(v) => r.status == 200 && r.body@ == counter_body(v),
        Result::Err(f) => r.status == 409 && r.body@ == json_string(fault_reason(f)),
    }
}

pub fn post_counter_increment(counter: &mut CounterState) -> (r: ApiResponse)
    ensures
        final(counter)@ == step(old(counter)@, Action::Increment).0,
        service_response(old(counter)@, Action::Increment, r),
{
    post_counter(counter, CounterOp::Increment)
}

pub fn post_counter_decrement(counter: &mut CounterState) -> (r: ApiResponse)
    ensures
        final(counter)@ == step(old(counter)@, Action::Decrement).0,
        service_response(old(counter)@, Action::Decrement, r),
{
    post_counter(counter, CounterOp::Decrement)
}

/// Performs one arithmetic operation and frames the outcome.
pub fn post_counter(counter: &mut CounterState, count: CounterOp) -> (r: ApiResponse)
    ensures
        final(counter)@ == step(old(counter)@, count.action()).0,
        service_response(old(counter)@, count.action(), r),
{
    match counter.compute(count) {
        Ok(_) => counter.response(),
        Err(e) => e.into_response(409),
    }
}

/// The read route: reports the current count without mutating the register.
pub fn get_counter(counter: &CounterState) -> (r: ApiResponse)
    ensures
        counter@ matches Some(v) ==> r.status == 200 && r.body@ == counter_body(v),
        counter@ is None ==> r.status == 409 && r.body@ == json_string(
            "Counter is not initialized!"@,
        ),
{
    counter.response()
}

/// The initialize route: transitions the register to `Initialized` with a
/// count of zero, or reports the conflict when it already was.
pub fn post_counter_init(counter: &mut CounterState) -> (r: ApiResponse)
    ensures
        final(counter)@ == step(old(counter)@, Action::Init).0,
        service_response(old(counter)@, Action::Init, r),
{
    if counter.initialized() {
        Error::new(String::from_str("Counter already initialized.")).into_response(409)
    } else {
        counter.set_default();
        counter.response()
    }
}

} // verus!
