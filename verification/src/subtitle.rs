//! The records that flow through the caption pipeline, and their mathematical views.

use vstd::prelude::*;

verus! {

/// The smallest piece of caption text that carries its own time span.
///
/// Every segment of a timed event becomes one unit. Units of the same event
/// share `id`, `start_ms` and `end_ms`. Times are whole milliseconds from the
/// start of the video; the time in seconds is the field divided by one thousand.
#[derive(Clone, Debug, PartialEq, Eq)]
pub struct AtomicSubtitleUnit {
    /// One more than the position of the event in the payload.
    pub id: u64,
    /// The segment's text, exactly as the payload gave it.
    pub text: String,
    pub start_ms: u64,
    pub end_ms: u64,
}

/// What an [`AtomicSubtitleUnit`] is, as plain mathematical values.
pub struct UnitView {
    pub id: nat,
    pub text: Seq<char>,
    pub start_ms: nat,
    pub end_ms: nat,
}

impl View for AtomicSubtitleUnit {
    type V = UnitView;

    open spec fn view(&self) -> UnitView {
        UnitView {
            id: self.id as nat,
            text: self.text@,
            start_ms: self.start_ms as nat,
            end_ms: self.end_ms as nat,
        }
    }
}

/// One subtitle of the finished sequence.
///
/// `end_ms` is `None` while the end is unresolved: a merged line learns its end
/// from the start of the line that follows it, and the last line has none.
#[derive(Clone, Debug, PartialEq, Eq)]
pub struct MergedSubtitle {
    pub id: u64,
    pub text: String,
    pub start_ms: u64,
    pub end_ms: Option<u64>,
}

/// What a [`MergedSubtitle`] is, as plain mathematical values.
pub struct SubtitleView {
    pub id: nat,
    pub text: Seq<char>,
    pub start_ms: nat,
    pub end_ms: Option<nat>,
}

impl View for MergedSubtitle {
    type V = SubtitleView;

    open spec fn view(&self) -> SubtitleView {
        SubtitleView {
            id: self.id as nat,
            text: self.text@,
            start_ms: self.start_ms as nat,
            end_ms: match self.end_ms {
                Some(end) => Some(end as nat),
                None => None,
            },
        }
    }
}

/// The views of a sequence of units, in order.
pub open spec fn unit_views(units: Seq<AtomicSubtitleUnit>) -> Seq<UnitView> {
    Seq::new(units.len(), |i: int| units[i]@)
}

/// The views of a sequence of subtitles, in order.
pub open spec fn subtitle_views(subtitles: Seq<MergedSubtitle>) -> Seq<SubtitleView> {
    Seq::new(subtitles.len(), |i: int| subtitles[i]@)
}

} // verus!
