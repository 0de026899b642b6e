//! The service's state: the counter register and the error type carried back
//! to the request layer.

pub mod counter;
pub mod error;
