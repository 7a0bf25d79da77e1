//! From the payload of a track to the finished subtitle sequence.

use vstd::prelude::*;
use crate::error::CaptionError;
use crate::merge::{normalize, normalized};
use crate::payload::{parse_payload, units_of_text};
use crate::subtitle::{subtitle_views, MergedSubtitle, SubtitleView};

verus! {

/// The subtitles that a payload text stands for; `None` where it is malformed.
pub open spec fn transcript_of(payload: Seq<char>) -> Option<Seq<SubtitleView>> {
    match units_of_text(payload) {
        Some(units) => Some(normalized(units)),
        None => None,
    }
}

/// Turns the payload of a track into subtitles: parses it into atomic units,
/// then merges them when the track is automatically generated and hands them
/// on unchanged when it is not.
///
/// Fails exactly when the payload is malformed, and then yields no subtitle
/// at all.
pub fn get_transcript(payload: &str) -> (outcome: Result<Vec<MergedSubtitle>, CaptionError>)
    ensures
        match outcome {
            Ok(subtitles) => transcript_of(payload@) == Some(subtitle_views(subtitles@)),
            Err(error) => error == CaptionError::MalformedPayload && transcript_of(payload@)
                is None,
        },
{
    match parse_payload(payload) {
        Ok(units) => Ok(normalize(&units)),
        Err(error) => Err(error),
    }
}

} // verus!
