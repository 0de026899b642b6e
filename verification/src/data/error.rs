//! The error carried from the register to the request layer, and its wire
//! rendering.

use vstd::prelude::*;
use vstd::string::StringExecFns;

use crate::api::ApiResponse;
use crate::json::{json_string, json_string_of};
use crate::shared::Error as SError;

verus! {

/// A failed operation's reason. The register never panics: every refusal is
/// returned as one of these and surfaced verbatim to the caller.
#[derive(Debug)]
pub struct Error(SError);

impl View for Error {
    type V = Seq<char>;

    /// The reason string.
    closed spec fn view(&self) -> Seq<char> {
        self.0.reason@
    }
}

impl Error {
    pub fn new(msg: String) -> (e: Error)
        ensures
            e@ == msg@,
    {
        Error(SError { reason: msg })
    }

    /// The reason string, for callers that report the failure themselves.
    pub fn reason(&self) -> (r: &String)
        ensures
            r@ == self@,
    {
        &self.0.reason
    }

    /// The wire response for this failure: the reason as a JSON string,
    /// under the status classification the caller chose.
    pub fn into_response(self, status: u16) -> (r: ApiResponse)
        ensures
            r.status == status,
            r.body@ == json_string(self@),
    {
        let body = json_string_of(self.0.reason.as_str());
        ApiResponse { status, body }
    }
}

/// The degraded payload for an internal encoding failure when producing a
/// success response. The verified encoders are total, so the service itself
/// never reaches this; it is kept for callers that frame payloads of their
/// own.
pub fn serialization_error_response() -> (r: ApiResponse)
    ensures
        r.status == 500,
        r.body@ == json_string("Failed to serialize struct!"@),
{
    Error::new(String::from_str("Failed to serialize struct!")).into_response(500)
}

} // verus!
