//! Wire-level payload types shared between the service and its clients.

use vstd::prelude::*;

verus! {

/// The success payload: the counter's current count.
#[derive(Clone, Copy, Debug, PartialEq, Eq, Structural)]
pub struct Counter {
    pub count: i32,
}

impl Default for Counter {
    /// A fresh counter starts at zero.
    fn default() -> (c: Counter)
        ensures
            c.count == 0,
    {
        Counter { count: 0 }
    }
}

/// The failure payload: a single reason string describing why an operation
/// was refused.
#[derive(Debug)]
pub struct Error {
    pub reason: String,
}

} // verus!
