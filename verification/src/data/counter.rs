//! The counter register: a state machine with two states, `Uninitialized`
//! and `Initialized`, holding a 32-bit signed count with bounds-checked
//! arithmetic.
//!
//! The register is modelled by an `Option<int>`: `None` while uninitialized,
//! `Some(v)` once initialized with count `v`. Every operation is one [`step`]
//! of that model. A caller holds the register exclusively for the duration of
//! an operation (`&mut`); a transport layer that serves concurrent requests
//! guards the register with a lock, so every interleaving is some total order
//! of steps.

use vstd::prelude::*;
use vstd::string::StringExecFns;

use crate::api::ApiResponse;
use crate::data::error::Error;
use crate::json::{counter_body, counter_json, json_string};
use crate::shared::Counter;

verus! {

/// The four logical operations of the register.
#[derive(Clone, Copy, Debug, PartialEq, Eq, Structural)]
pub enum Action {
    Init,
    Get,
    Increment,
    Decrement,
}

/// The two arithmetic operations, dispatched through one checked
/// compute-and-set.
#[derive(Clone, Copy, Debug, PartialEq, Eq, Structural)]
pub enum CounterOp {
    Increment,
    Decrement,
}

impl CounterOp {
    /// The register action this arithmetic operation performs.
    pub open spec fn action(self) -> Action {
        match self {
            CounterOp::Increment => Action::Increment,
            CounterOp::Decrement => Action::Decrement,
        }
    }
}

/// Why an operation was refused.
#[derive(Clone, Copy, Debug, PartialEq, Eq, Structural)]
pub enum Fault {
    NotInitialized,
    AlreadyInitialized,
    Overflow,
    Underflow,
}

/// The reason string the register reports for each fault.
pub open spec fn fault_reason(f: Fault) -> Seq<char> {
    match f {
        Fault::NotInitialized => "Counter has not been initialized."@,
        Fault::AlreadyInitialized => "Counter already initialized."@,
        Fault::Overflow => "Reached maximum value."@,
        Fault::Underflow => "Reached minimum value."@,
    }
}

/// One step of the register state machine: the state after the operation and
/// the operation's outcome. An operation that fails leaves the state
/// unchanged, and arithmetic never leaves the 32-bit signed range.
pub open spec fn step(s: Option<int>, a: Action) -> (Option<int>, Result<int, Fault>) {
    match a {
        Action::Init => match s {
            Option::None => (Option::Some(0int), Result::Ok(0int)),
            Option::Some(_) => (s, Result::Err(Fault::AlreadyInitialized)),
        },
        Action::Get => match s {
            Option::None => (s, Result::Err(Fault::NotInitialized)),
            Option::Some(v) => (s, Result::Ok(v)),
        },
        Action::Increment => match s {
            Option::None => (s, Result::Err(Fault::NotInitialized)),
            Option::Some(v) => if v + 1 <= i32::MAX {
                (Option::Some(v + 1), Result::Ok(v + 1))
            } else {
                (s, Result::Err(Fault::Overflow))
            },
        },
        Action::Decrement => match s {
            Option::None => (s, Result::Err(Fault::NotInitialized)),
            Option::Some(v) => if v - 1 >= i32::MIN {
                (Option::Some(v - 1), Result::Ok(v - 1))
            } else {
                (s, Result::Err(Fault::Underflow))
            },
        },
    }
}

/// The register state after a whole sequence of operations.
pub open spec fn run(s: Option<int>, ops: Seq<Action>) -> Option<int>
    decreases ops.len(),
{
    if ops.len() == 0 {
        s
    } else {
        step(run(s, ops.drop_last()), ops.last()).0
    }
}

/// While no `Init` has run, the register stays uninitialized.
proof fn lemma_run_without_init(ops: Seq<Action>)
    requires
        forall|j: int| 0 <= j < ops.len() ==> ops[j] != Action::Init,
    ensures
        run(Option::None, ops) is None,
    decreases ops.len(),
{
    if ops.len() > 0 {
        assert(forall|j: int|
            0 <= j < ops.drop_last().len() ==> ops.drop_last()[j] != Action::Init);
        lemma_run_without_init(ops.drop_last());
    }
}

/// Law: starting uninitialized, any `Get`, `Increment` or `Decrement` before
/// the first `Init` fails with `NotInitialized` and leaves the register
/// unchanged.
pub proof fn lemma_before_init_all_fail(ops: Seq<Action>, i: int)
    requires
        0 <= i < ops.len(),
        forall|j: int| 0 <= j < i ==> ops[j] != Action::Init,
        ops[i] != Action::Init,
    ensures
        step(run(Option::None, ops.take(i)), ops[i]).0 is None,
        step(run(Option::None, ops.take(i)), ops[i]).1 == Result::<int, Fault>::Err(
            Fault::NotInitialized,
        ),
{
    assert(forall|j: int| 0 <= j < ops.take(i).len() ==> ops.take(i)[j] != Action::Init);
    lemma_run_without_init(ops.take(i));
}

/// Starting uninitialized, the register is initialized exactly when some
/// `Init` has run: only `Init` initializes, and nothing un-initializes.
pub proof fn lemma_initialized_iff_init(ops: Seq<Action>)
    ensures
        (run(Option::None, ops) is Some) <==> exists|j: int|
            0 <= j < ops.len() && ops[j] == Action::Init,
    decreases ops.len(),
{
    if ops.len() > 0 {
        let dl = ops.drop_last();
        lemma_initialized_iff_init(dl);
        if run(Option::None, dl) is Some {
            let j: int = choose|j: int| 0 <= j < dl.len() && dl[j] == Action::Init;
            assert(ops[j] == Action::Init);
        } else if ops.last() == Action::Init {
            assert(ops[ops.len() - 1] == Action::Init);
        } else {
            assert(forall|j: int| 0 <= j < ops.len() ==> ops[j] != Action::Init) by {
                assert(forall|j: int| 0 <= j < dl.len() ==> dl[j] != Action::Init);
                assert(forall|j: int| 0 <= j < ops.len() - 1 ==> ops[j] == dl[j]);
            }
        }
    }
}

/// Law: `Init` succeeds exactly once per register lifetime. Starting
/// uninitialized, an `Init` returns 0 exactly when no earlier `Init` has run;
/// every later `Init` fails with `AlreadyInitialized` and leaves the register
/// unchanged.
pub proof fn lemma_init_succeeds_exactly_once(ops: Seq<Action>, i: int)
    requires
        0 <= i < ops.len(),
        ops[i] == Action::Init,
    ensures
        (step(run(Option::None, ops.take(i)), Action::Init).1 == Result::<int, Fault>::Ok(0))
            <==> (forall|j: int| 0 <= j < i ==> ops[j] != Action::Init),
        (exists|j: int| 0 <= j < i && ops[j] == Action::Init) ==> {
            let s_i = run(Option::None, ops.take(i));
            &&& step(s_i, Action::Init).1 == Result::<int, Fault>::Err(Fault::AlreadyInitialized)
            &&& step(s_i, Action::Init).0 == s_i
        },
{
    lemma_initialized_iff_init(ops.take(i));
    if exists|j: int| 0 <= j < i && ops[j] == Action::Init {
        let j: int = choose|j: int| 0 <= j < i && ops[j] == Action::Init;
        assert(ops.take(i)[j] == Action::Init);
    }
    if run(Option::None, ops.take(i)) is Some {
        let j: int = choose|j: int| 0 <= j < ops.take(i).len() && ops.take(i)[j] == Action::Init;
        assert(ops[j] == Action::Init);
    }
}

/// Law: immediately after a successful `Init`, `Get` returns 0.
pub proof fn lemma_get_after_init(s: Option<int>)
    requires
        s is None,
    ensures
        step(s, Action::Init).1 == Result::<int, Fault>::Ok(0),
        step(step(s, Action::Init).0, Action::Get).1 == Result::<int, Fault>::Ok(0),
{
}

/// Law: from any initialized count below the maximum, `Increment` then
/// `Decrement` both succeed and return the register to the original count.
/// (At the maximum itself the round trip does not hold: `Increment` is
/// refused without mutating, and the following `Decrement` still moves the
/// count down.)
pub proof fn lemma_increment_then_decrement(v: int)
    requires
        i32::MIN <= v < i32::MAX,
    ensures
        step(Option::Some(v), Action::Increment).1 == Result::<int, Fault>::Ok(v + 1),
        step(step(Option::Some(v), Action::Increment).0, Action::Decrement).1 == Result::<
            int,
            Fault,
        >::Ok(v),
        step(step(Option::Some(v), Action::Increment).0, Action::Decrement).0 == Option::Some(v),
{
}

/// Law: from any initialized count above the minimum, `Decrement` then
/// `Increment` both succeed and return the register to the original count.
pub proof fn lemma_decrement_then_increment(v: int)
    requires
        i32::MIN < v <= i32::MAX,
    ensures
        step(Option::Some(v), Action::Decrement).1 == Result::<int, Fault>::Ok(v - 1),
        step(step(Option::Some(v), Action::Decrement).0, Action::Increment).1 == Result::<
            int,
            Fault,
        >::Ok(v),
        step(step(Option::Some(v), Action::Decrement).0, Action::Increment).0 == Option::Some(v),
{
}

/// A sequence of `n` `Increment` operations.
pub open spec fn increments(n: nat) -> Seq<Action> {
    Seq::new(n, |i: int| Action::Increment)
}

proof fn lemma_run_increments(v: int, n: nat)
    requires
        i32::MIN <= v,
        v + n <= i32::MAX,
    ensures
        run(Option::Some(v), increments(n)) == Option::Some(v + n),
    decreases n,
{
    if n > 0 {
        assert(increments(n).drop_last() =~= increments((n - 1) as nat));
        lemma_run_increments(v, (n - 1) as nat);
    }
}

/// Law: any serialization of `n` `Increment` calls against an initialized
/// register at count `v` that cannot overflow has every call succeed and ends
/// at exactly `v + n`: no update is lost. (The register is only reachable
/// under mutual exclusion, so every concurrent execution is one such
/// serialization.)
pub proof fn lemma_increments_never_lost(v: int, n: nat)
    requires
        i32::MIN <= v,
        v + n <= i32::MAX,
    ensures
        run(Option::Some(v), increments(n)) == Option::Some(v + n),
        forall|i: nat|
            i < n ==> step(run(Option::Some(v), #[trigger] increments(i)), Action::Increment).1
                == Result::<int, Fault>::Ok(v + i + 1),
{
    lemma_run_increments(v, n);
    assert forall|i: nat| i < n implies step(
        run(Option::Some(v), #[trigger] increments(i)),
        Action::Increment,
    ).1 == Result::<int, Fault>::Ok(v + i + 1) by {
        lemma_run_increments(v, i);
    }
}

/// An executable outcome agrees with a model outcome: the same count on
/// success, the fault's reason string on failure.
pub open spec fn result_models(r: Result<i32, Error>, m: Result<int, Fault>) -> bool {
    match (r, m) {
        (Result::Ok(v), Result::Ok(mv)) => v == mv,
        (Result::Err(e), Result::Err(f)) => e@ == fault_reason(f),
        _ => false,
    }
}

/// The counter register. Created uninitialized at process start and shared
/// across all requests; the transport layer hands it to each handler under
/// mutual exclusion.
#[derive(Clone, Debug)]
pub struct CounterState {
    inner: Option<Counter>,
}

impl View for CounterState {
    type V = Option<int>;

    closed spec fn view(&self) -> Option<int> {
        match self.inner {
            Option::Some(c) => Option::Some(c.count as int),
            Option::None => Option::None,
        }
    }
}

impl Default for CounterState {
    /// A fresh register is uninitialized.
    fn default() -> (s: CounterState)
        ensures
            s@ is None,
    {
        CounterState { inner: None }
    }
}

impl CounterState {
    /// An initialized register already holding `count`.
    pub fn with_count(count: i32) -> (s: CounterState)
        ensures
            s@ == Option::Some(count as int),
    {
        CounterState { inner: Some(Counter { count }) }
    }

    /// Whether the register currently holds a meaningful count.
    pub fn initialized(&self) -> (r: bool)
        ensures
            r == (self@ is Some),
    {
        match self.inner {
            Some(_) => true,
            None => false,
        }
    }

    /// Sets the register to the initialized state with a count of zero,
    /// whatever state it was in. The init handler guards this with
    /// [`Self::initialized`]; [`Self::init`] performs the guarded transition
    /// in one call.
    pub fn set_default(&mut self)
        ensures
            final(self)@ == Option::Some(0int),
    {
        self.inner = Some(Counter::default());
    }

    /// The `Init` operation: succeeds exactly once, re-initialization is
    /// refused.
    pub fn init(&mut self) -> (r: Result<i32, Error>)
        ensures
            final(self)@ == step(old(self)@, Action::Init).0,
            result_models(r, step(old(self)@, Action::Init).1),
    {
        if self.initialized() {
            Err(Error::new(String::from_str("Counter already initialized.")))
        } else {
            self.set_default();
            Ok(0)
        }
    }

    /// The `Get` operation: the current count of an initialized register.
    pub fn get(&self) -> (r: Result<i32, Error>)
        ensures
            result_models(r, step(self@, Action::Get).1),
    {
        match self.inner {
            Some(c) => Ok(c.count),
            None => Err(Error::new(String::from_str("Counter has not been initialized."))),
        }
    }

    /// One bounds-checked arithmetic operation: refused before `Init`, and
    /// refused (leaving the count unchanged) where the result would leave the
    /// 32-bit signed range.
    pub fn compute(&mut self, op: CounterOp) -> (r: Result<i32, Error>)
        ensures
            final(self)@ == step(old(self)@, op.action()).0,
            result_models(r, step(old(self)@, op.action()).1),
    {
        match self.inner {
            None => Err(Error::new(String::from_str("Counter has not been initialized."))),
            Some(c) => {
                let next = match op {
                    CounterOp::Increment => c.count.checked_add(1),
                    CounterOp::Decrement => c.count.checked_sub(1),
                };
                match next {
                    Some(result) => {
                        self.inner = Some(Counter { count: result });
                        Ok(result)
                    },
                    None => {
                        let reason = match op {
                            CounterOp::Increment => "Reached maximum value.",
                            CounterOp::Decrement => "Reached minimum value.",
                        };
                        Err(Error::new(String::from_str(reason)))
                    },
                }
            },
        }
    }

    /// The `Increment` operation.
    pub fn increment(&mut self) -> (r: Result<i32, Error>)
        ensures
            final(self)@ == step(old(self)@, Action::Increment).0,
            result_models(r, step(old(self)@, Action::Increment).1),
    {
        self.compute(CounterOp::Increment)
    }

    /// The `Decrement` operation.
    pub fn decrement(&mut self) -> (r: Result<i32, Error>)
        ensures
            final(self)@ == step(old(self)@, Action::Decrement).0,
            result_models(r, step(old(self)@, Action::Decrement).1),
    {
        self.compute(CounterOp::Decrement)
    }

    /// The read response: the current count as the success payload, or a
    /// conflict naming the uninitialized register.
    pub fn response(&self) -> (r: ApiResponse)
        ensures
            self@ matches Some(v) ==> r.status == 200 && r.body@ == counter_body(v),
            self@ is None ==> r.status == 409 && r.body@ == json_string(
                "Counter is not initialized!"@,
            ),
    {
        match self.get() {
            Ok(count) => ApiResponse { status: 200, body: counter_json(count) },
            Err(_) => Error::new(String::from_str("Counter is not initialized!")).into_response(
                409,
            ),
        }
    }
}

} // verus!
