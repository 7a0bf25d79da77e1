//! The ways in which retrieving a caption track can fail.

use vstd::prelude::*;

verus! {

/// Why no subtitle sequence could be produced.
#[derive(Clone, Copy, Debug, PartialEq, Eq, Structural)]
pub enum CaptionError {
    /// No preferred language matches any track that the video offers.
    NoMatchingLanguage,
    /// A fetch did not finish within the time allowed for it.
    FetchTimeout,
    /// A fetch failed below the level of HTTP: no connection, or a broken one.
    FetchTransportError,
    /// A fetch was answered with a status other than success.
    FetchHttpError,
    /// The payload is not a timed-text document of the expected shape.
    MalformedPayload,
}

impl CaptionError {
    /// Whether the error comes from the network rather than from the video or
    /// its payload. After such an error another language is worth a try.
    pub open spec fn is_fetch_failure(self) -> bool {
        self == CaptionError::FetchTimeout || self == CaptionError::FetchTransportError || self
            == CaptionError::FetchHttpError
    }
}

} // verus!
