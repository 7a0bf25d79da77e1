//! Telling rolling, automatically generated tracks from authored ones.

use vstd::prelude::*;
use crate::subtitle::{AtomicSubtitleUnit, UnitView, unit_views};

verus! {

/// How many leading units the detector looks at.
pub const PREFIX_LEN: usize = 10;

/// Two neighbouring units collide when they report the same start or the same end.
pub open spec fn collides(a: UnitView, b: UnitView) -> bool {
    a.start_ms == b.start_ms || a.end_ms == b.end_ms
}

/// A track counts as automatically generated when it has at least
/// [`PREFIX_LEN`] units and two neighbours among the first [`PREFIX_LEN`] collide.
pub open spec fn auto_generated(units: Seq<UnitView>) -> bool {
    units.len() >= PREFIX_LEN as int && exists|i: int|
        0 <= i < PREFIX_LEN as int - 1 && collides(#[trigger] units[i], units[i + 1])
}

/// Classifies a track from its first [`PREFIX_LEN`] units.
pub fn is_auto_generated(units: &Vec<AtomicSubtitleUnit>) -> (fired: bool)
    ensures
        fired == auto_generated(unit_views(units@)),
{
    if units.len() < PREFIX_LEN {
        return false;
    }
    let ghost views = unit_views(units@);
    let mut i: usize = 0;
    while i + 1 < PREFIX_LEN
        invariant
            i + 1 <= PREFIX_LEN <= units.len(),
            views == unit_views(units@),
            forall|j: int| 0 <= j < i ==> !collides(#[trigger] views[j], views[j + 1]),
        decreases PREFIX_LEN - i,
    {
        if units[i].start_ms == units[i + 1].start_ms || units[i].end_ms == units[i + 1].end_ms {
            assert(collides(views[i as int], views[i + 1]));
            return true;
        }
        i = i + 1;
    }
    false
}

} // verus!
