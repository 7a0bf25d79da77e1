//! What a fetch of a track's payload comes to.
//!
//! The request itself is made elsewhere, once and without a retry; here its
//! observed end is turned into the payload or into the error that names the
//! failure.

use vstd::prelude::*;
use crate::error::CaptionError;

verus! {

/// How many seconds one fetch may take before it counts as timed out.
pub const FETCH_TIMEOUT_SECS: u64 = 120;

/// How a request ended, as the transport saw it.
#[derive(Clone, Debug, PartialEq, Eq)]
pub enum Response {
    /// No answer came within [`FETCH_TIMEOUT_SECS`].
    TimedOut,
    /// The connection could not be made, or broke.
    Unreachable,
    /// The server answered with this status and this body.
    Answered { status: u16, body: String },
}

/// A status of success: one from 200 to 299.
pub open spec fn is_success(status: u16) -> bool {
    200 <= status <= 299
}

/// What a fetch that ended in `response` comes to.
pub open spec fn fetched(response: Response) -> Result<Seq<char>, CaptionError> {
    match response {
        Response::TimedOut => Err(CaptionError::FetchTimeout),
        Response::Unreachable => Err(CaptionError::FetchTransportError),
        Response::Answered { status, body } => if is_success(status) {
            Ok(body@)
        } else {
            Err(CaptionError::FetchHttpError)
        },
    }
}

/// Turns the end of a request into the payload, or into the error that
/// names the failure: a timeout, a failure of the transport, or an answer
/// with a status other than success.
pub fn payload_of_response(response: Response) -> (outcome: Result<String, CaptionError>)
    ensures
        match outcome {
            Ok(payload) => fetched(response) == Ok::<Seq<char>, CaptionError>(payload@),
            Err(error) => fetched(response) == Err::<Seq<char>, CaptionError>(error),
        },
{
    match response {
        Response::TimedOut => Err(CaptionError::FetchTimeout),
        Response::Unreachable => Err(CaptionError::FetchTransportError),
        Response::Answered { status, body } => if 200 <= status && status <= 299 {
            Ok(body)
        } else {
            Err(CaptionError::FetchHttpError)
        },
    }
}

/// Every failed fetch is a failure of the network: it leaves the next
/// language worth a try.
pub proof fn lemma_fetch_fails_by_network(response: Response)
    ensures
        fetched(response) matches Err(error) ==> error.is_fetch_failure(),
{
}

} // verus!
