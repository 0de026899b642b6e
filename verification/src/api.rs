//! The service surface: what the transport layer needs to emit a response,
//! and the handlers for the counter and asset routes.

pub mod assets;
pub mod counter;

use vstd::prelude::*;

verus! {

/// What the transport layer emits for one request: a status classification
/// (success 200, conflict 409, internal error 500) and the response body.
pub struct ApiResponse {
    pub status: u16,
    pub body: String,
}

} // verus!
