//! Joining the fragments of a rolling caption track into whole lines.
//!
//! A rolling track delivers a line piece by piece; the piece that carries a
//! line break closes the line. Each closed line becomes one subtitle that
//! starts where its first piece starts and ends where the next line starts.
//! Pieces after the last line break belong to no closed line and are left out.

use vstd::prelude::*;
use crate::detect::{auto_generated, is_auto_generated};
use crate::subtitle::{
    subtitle_views, unit_views, AtomicSubtitleUnit, MergedSubtitle, SubtitleView, UnitView,
};
use crate::text::{contains_char, lemma_replaced_is_free, replace_char, replaced};

verus! {

/// The character that closes a line of a rolling track.
pub const LINE_BREAK: char = '\n';

/// A unit closes the line it belongs to when its text holds a line break.
pub open spec fn ends_line(text: Seq<char>) -> bool {
    text.contains(LINE_BREAK)
}

/// `text` with each line break turned into one space.
pub open spec fn unbroken(text: Seq<char>) -> Seq<char> {
    replaced(text, LINE_BREAK, seq![' '])
}

/// A closed line: where it starts, and its text with the breaks still in it.
pub struct Line {
    pub start_ms: nat,
    pub text: Seq<char>,
}

/// The position of the first unit of the line that is still open after
/// `units`; `units.len()` when no line is open.
pub open spec fn open_from(units: Seq<UnitView>) -> int
    decreases units.len(),
{
    if units.len() == 0 {
        0
    } else if ends_line(units.last().text) {
        units.len() as int
    } else {
        open_from(units.drop_last())
    }
}

/// The text gathered so far for the line that is still open after `units`.
pub open spec fn open_text(units: Seq<UnitView>) -> Seq<char>
    decreases units.len(),
{
    if units.len() == 0 {
        Seq::empty()
    } else if ends_line(units.last().text) {
        Seq::empty()
    } else {
        open_text(units.drop_last()) + units.last().text
    }
}

/// The lines that `units` close, in order.
///
/// A unit with a line break closes one line: the text is what was open before
/// it followed by its own text, and the start is that of the first open unit,
/// which is the closing unit itself when nothing was open.
pub open spec fn lines(units: Seq<UnitView>) -> Seq<Line>
    decreases units.len(),
{
    if units.len() == 0 {
        Seq::empty()
    } else {
        let before = units.drop_last();
        if ends_line(units.last().text) {
            lines(before).push(
                Line {
                    start_ms: units[open_from(before)].start_ms,
                    text: open_text(before) + units.last().text,
                },
            )
        } else {
            lines(before)
        }
    }
}

/// The subtitle made from line `j` of `all`: numbered from one, free of line
/// breaks, ending where the next line starts, or unresolved when it is the last.
pub open spec fn entry(all: Seq<Line>, j: int) -> SubtitleView {
    SubtitleView {
        id: (j + 1) as nat,
        text: unbroken(all[j].text),
        start_ms: all[j].start_ms,
        end_ms: if j + 1 < all.len() {
            Some(all[j + 1].start_ms)
        } else {
            None
        },
    }
}

/// The merged form of a rolling track.
pub open spec fn merged(units: Seq<UnitView>) -> Seq<SubtitleView> {
    let all = lines(units);
    Seq::new(all.len(), |j: int| entry(all, j))
}

/// A unit handed on as a subtitle, field for field.
pub open spec fn as_subtitle(unit: UnitView) -> SubtitleView {
    SubtitleView {
        id: unit.id,
        text: unit.text,
        start_ms: unit.start_ms,
        end_ms: Some(unit.end_ms),
    }
}

/// A track handed on unchanged.
pub open spec fn passed_through(units: Seq<UnitView>) -> Seq<SubtitleView> {
    Seq::new(units.len(), |i: int| as_subtitle(units[i]))
}

/// What a track becomes: merged when it is automatically generated, handed
/// on unchanged when it is not. Never both.
pub open spec fn normalized(units: Seq<UnitView>) -> Seq<SubtitleView> {
    if auto_generated(units) {
        merged(units)
    } else {
        passed_through(units)
    }
}

proof fn lemma_take_step(units: Seq<UnitView>, i: int)
    requires
        0 <= i < units.len(),
    ensures
        units.take(i + 1).drop_last() == units.take(i),
        units.take(i + 1).last() == units[i],
        units.take(i + 1).len() == i + 1,
{
    assert(units.take(i + 1).drop_last() =~= units.take(i));
}

/// Joins the fragments of a rolling track into whole lines.
///
/// The result has one subtitle for each unit that holds a line break. Its ids
/// count from one without a gap, no text holds a line break, and each
/// subtitle but the last ends where the next one starts.
pub fn merge(units: &Vec<AtomicSubtitleUnit>) -> (out: Vec<MergedSubtitle>)
    ensures
        subtitle_views(out@) == merged(unit_views(units@)),
        forall|j: int| 0 <= j < out.len() ==> (#[trigger] out[j]).id == j + 1,
        forall|j: int| 0 <= j < out.len() ==> !(#[trigger] out[j]).text@.contains(LINE_BREAK),
        forall|j: int|
            0 <= j < out.len() - 1 ==> (#[trigger] out[j]).end_ms == Some(out[j + 1].start_ms),
        out.len() > 0 ==> out[out.len() - 1].end_ms is None,
{
    let ghost views = unit_views(units@);
    let mut out: Vec<MergedSubtitle> = Vec::new();
    let mut buffer = String::new();
    let mut pending_start: Option<u64> = None;
    let mut held: Option<MergedSubtitle> = None;
    let mut i: usize = 0;
    proof {
        reveal_strlit(" ");
        assert(" "@ =~= seq![' ']);
    }
    while i < units.len()
        invariant
            i <= units.len(),
            views == unit_views(units@),
            " "@ == seq![' '],
            buffer@ == open_text(views.take(i as int)),
            0 <= open_from(views.take(i as int)) <= i,
            open_from(views.take(i as int)) < i ==> pending_start == Some(
                units[open_from(views.take(i as int))].start_ms,
            ),
            open_from(views.take(i as int)) == i ==> pending_start is None,
            lines(views.take(i as int)).len() <= i,
            held is None ==> lines(views.take(i as int)).len() == 0 && out.len() == 0,
            held is Some ==> out.len() == lines(views.take(i as int)).len() - 1 && held.unwrap()@
                == entry(lines(views.take(i as int)), out.len() as int),
            forall|j: int|
                0 <= j < out.len() ==> (#[trigger] out[j])@ == entry(
                    lines(views.take(i as int)),
                    j,
                ),
        decreases units.len() - i,
    {
        let ghost before = views.take(i as int);
        let ghost after = views.take(i + 1);
        let ghost closed = lines(before);
        proof {
            lemma_take_step(views, i as int);
            assert(views[i as int] == units[i as int]@);
        }
        let unit = &units[i];
        let start = match pending_start {
            Some(first) => first,
            None => unit.start_ms,
        };
        assert(start as nat == after[open_from(before)].start_ms) by {
            if open_from(before) < i {
                assert(after[open_from(before)] == views[open_from(before)]);
                assert(views[open_from(before)] == units[open_from(before)]@);
            }
        }
        buffer.append(unit.text.as_str());
        if contains_char(unit.text.as_str(), LINE_BREAK) {
            let text = replace_char(buffer.as_str(), LINE_BREAK, " ");
            let ghost grown = lines(after);
            assert(grown == closed.push(Line { start_ms: start as nat, text: buffer@ }));
            match held {
                Some(previous) => {
                    out.push(
                        MergedSubtitle {
                            id: previous.id,
                            text: previous.text,
                            start_ms: previous.start_ms,
                            end_ms: Some(start),
                        },
                    );
                },
                None => {},
            }
            assert(out.len() == closed.len());
            assert forall|j: int| 0 <= j < out.len() implies (#[trigger] out[j])@ == entry(
                grown,
                j,
            ) by {
                assert(grown[j] == closed[j]);
                if j + 1 < closed.len() {
                    assert(grown[j + 1] == closed[j + 1]);
                }
            }
            let id = out.len() as u64 + 1;
            held = Some(MergedSubtitle { id, text, start_ms: start, end_ms: None });
            buffer = String::new();
            pending_start = None;
        } else {
            pending_start = Some(start);
            assert(open_from(after) == open_from(before));
            assert(open_from(before) < i + 1);
            assert(after[open_from(before)] == views[open_from(before)]);
            assert(views[open_from(before)] == units[open_from(before)]@);
        }
        i = i + 1;
    }
    assert(views.take(i as int) =~= views);
    match held {
        Some(last) => {
            out.push(last);
        },
        None => {},
    }
    proof {
        let all = lines(views);
        assert(subtitle_views(out@) =~= merged(views));
        assert forall|j: int| 0 <= j < out.len() implies !(#[trigger] out[j]).text@.contains(
            LINE_BREAK,
        ) by {
            assert(out[j]@ == entry(all, j));
            lemma_replaced_is_free(all[j].text, LINE_BREAK, seq![' ']);
        }
        assert forall|j: int| 0 <= j < out.len() implies (#[trigger] out[j]).id == j + 1 by {
            assert(out[j]@ == entry(all, j));
        }
        assert forall|j: int| 0 <= j < out.len() - 1 implies (#[trigger] out[j]).end_ms == Some(
            out[j + 1].start_ms,
        ) by {
            assert(out[j]@ == entry(all, j));
            assert(out[j + 1]@ == entry(all, j + 1));
        }
        if out.len() > 0 {
            assert(out[out.len() - 1]@ == entry(all, out.len() - 1));
        }
    }
    out
}

/// Hands a track on unchanged: every unit becomes one subtitle with the same
/// id, text, start and end.
pub fn pass_through(units: &Vec<AtomicSubtitleUnit>) -> (out: Vec<MergedSubtitle>)
    ensures
        subtitle_views(out@) == passed_through(unit_views(units@)),
{
    let mut out: Vec<MergedSubtitle> = Vec::new();
    let mut i: usize = 0;
    while i < units.len()
        invariant
            i <= units.len(),
            out.len() == i,
            forall|j: int| 0 <= j < i ==> (#[trigger] out[j])@ == as_subtitle(units[j]@),
        decreases units.len() - i,
    {
        let unit = &units[i];
        out.push(
            MergedSubtitle {
                id: unit.id,
                text: unit.text.clone(),
                start_ms: unit.start_ms,
                end_ms: Some(unit.end_ms),
            },
        );
        i = i + 1;
    }
    assert(subtitle_views(out@) =~= passed_through(unit_views(units@)));
    out
}

/// Brings a parsed track into its final form: a track that the detector takes
/// for automatically generated is merged, any other is handed on unchanged.
pub fn normalize(units: &Vec<AtomicSubtitleUnit>) -> (out: Vec<MergedSubtitle>)
    ensures
        subtitle_views(out@) == normalized(unit_views(units@)),
{
    if is_auto_generated(units) {
        merge(units)
    } else {
        pass_through(units)
    }
}

/// A track that the detector takes for authored comes out of normalisation as
/// it went in: as many subtitles as units, each equal to its unit field for field.
pub proof fn lemma_authored_track_is_kept(units: Seq<UnitView>)
    requires
        !auto_generated(units),
    ensures
        normalized(units).len() == units.len(),
        forall|i: int|
            0 <= i < units.len() ==> {
                let kept = #[trigger] normalized(units)[i];
                &&& kept.id == units[i].id
                &&& kept.text == units[i].text
                &&& kept.start_ms == units[i].start_ms
                &&& kept.end_ms == Some(units[i].end_ms)
            },
{
}

/// The ids of a merged track are 1, 2, 3 and so on, one for each subtitle,
/// without a gap and without a repeat.
pub proof fn lemma_merged_ids_count_up(units: Seq<UnitView>)
    ensures
        forall|j: int| 0 <= j < merged(units).len() ==> (#[trigger] merged(units)[j]).id == j + 1,
{
}

/// No text of a merged track holds a line break.
pub proof fn lemma_merged_text_is_unbroken(units: Seq<UnitView>)
    ensures
        forall|j: int|
            0 <= j < merged(units).len() ==> !(#[trigger] merged(units)[j]).text.contains(
                LINE_BREAK,
            ),
{
    let all = lines(units);
    assert forall|j: int| 0 <= j < merged(units).len() implies !(#[trigger] merged(
        units,
    )[j]).text.contains(LINE_BREAK) by {
        lemma_replaced_is_free(all[j].text, LINE_BREAK, seq![' ']);
    }
}

/// In a merged track every subtitle but the last ends exactly where the next
/// one starts, and the end of the last one is unresolved.
pub proof fn lemma_merged_ends_meet(units: Seq<UnitView>)
    ensures
        forall|j: int|
            0 <= j < merged(units).len() - 1 ==> (#[trigger] merged(units)[j]).end_ms == Some(
                merged(units)[j + 1].start_ms,
            ),
        merged(units).len() > 0 ==> merged(units).last().end_ms is None,
{
}

/// Units that follow the last line break change nothing: the line they
/// began is never closed, so it is left out of the merged track.
pub proof fn lemma_open_tail_is_dropped(units: Seq<UnitView>, tail: Seq<UnitView>)
    requires
        forall|i: int| 0 <= i < tail.len() ==> !ends_line(#[trigger] tail[i].text),
    ensures
        merged(units + tail) == merged(units),
    decreases tail.len(),
{
    if tail.len() == 0 {
        assert(units + tail =~= units);
    } else {
        let whole = units + tail;
        assert(whole.drop_last() =~= units + tail.drop_last());
        assert(whole.last() == tail[tail.len() - 1]);
        lemma_open_tail_is_dropped(units, tail.drop_last());
    }
}

/// Units are in temporal order when no unit starts before an earlier one.
pub open spec fn in_temporal_order(units: Seq<UnitView>) -> bool {
    forall|a: int, b: int|
        0 <= a <= b < units.len() ==> (#[trigger] units[a]).start_ms <= (
        #[trigger] units[b]).start_ms
}

/// Some unit before position `upto` starts at `start_ms`.
spec fn starts_before(units: Seq<UnitView>, upto: int, start_ms: nat) -> bool {
    exists|i: int| 0 <= i < upto && i < units.len() && (#[trigger] units[i]).start_ms == start_ms
}

/// Every closed line starts where one of the units before the open line starts.
proof fn lemma_lines_start_at_units(units: Seq<UnitView>)
    ensures
        0 <= open_from(units) <= units.len(),
        forall|j: int|
            0 <= j < lines(units).len() ==> starts_before(
                units,
                open_from(units),
                (#[trigger] lines(units)[j]).start_ms,
            ),
    decreases units.len(),
{
    if units.len() > 0 {
        let before = units.drop_last();
        lemma_lines_start_at_units(before);
        assert forall|j: int| 0 <= j < lines(units).len() implies starts_before(
            units,
            open_from(units),
            (#[trigger] lines(units)[j]).start_ms,
        ) by {
            if j < lines(before).len() {
                assert(lines(units)[j] == lines(before)[j]);
                assert(starts_before(before, open_from(before), lines(before)[j].start_ms));
                let i = choose|i: int|
                    0 <= i < open_from(before) && i < before.len() && (
                    #[trigger] before[i]).start_ms == lines(before)[j].start_ms;
                assert(units[i] == before[i]);
            } else {
                let i = open_from(before);
                assert(units[i].start_ms == lines(units)[j].start_ms);
            }
        }
    }
}

/// The closed lines of units in temporal order start in temporal order.
proof fn lemma_lines_ascend(units: Seq<UnitView>)
    requires
        in_temporal_order(units),
    ensures
        forall|j: int|
            0 <= j < lines(units).len() - 1 ==> (#[trigger] lines(units)[j]).start_ms <= lines(
                units,
            )[j + 1].start_ms,
    decreases units.len(),
{
    if units.len() > 0 {
        let before = units.drop_last();
        assert(in_temporal_order(before)) by {
            assert forall|a: int, b: int| 0 <= a <= b < before.len() implies (
            #[trigger] before[a]).start_ms <= (#[trigger] before[b]).start_ms by {
                assert(before[a] == units[a] && before[b] == units[b]);
            }
        }
        lemma_lines_ascend(before);
        lemma_lines_start_at_units(before);
        if ends_line(units.last().text) {
            let all = lines(units);
            assert forall|j: int| 0 <= j < all.len() - 1 implies (#[trigger] all[j]).start_ms
                <= all[j + 1].start_ms by {
                assert(all[j] == lines(before)[j]);
                if j + 1 < lines(before).len() {
                    assert(all[j + 1] == lines(before)[j + 1]);
                } else {
                    assert(starts_before(before, open_from(before), lines(before)[j].start_ms));
                    let i = choose|i: int|
                        0 <= i < open_from(before) && i < before.len() && (
                        #[trigger] before[i]).start_ms == lines(before)[j].start_ms;
                    assert(before[i] == units[i]);
                    assert(all[j + 1].start_ms == units[open_from(before)].start_ms);
                }
            }
        }
    }
}

/// When the units are in temporal order, so are the merged subtitles: none
/// ends before it starts, and none starts before the one ahead of it.
pub proof fn lemma_merged_spans_forward(units: Seq<UnitView>)
    requires
        in_temporal_order(units),
    ensures
        forall|j: int|
            0 <= j < merged(units).len() && (#[trigger] merged(units)[j]).end_ms is Some
                ==> merged(units)[j].start_ms <= merged(units)[j].end_ms.unwrap(),
        forall|j: int|
            0 <= j < merged(units).len() - 1 ==> (#[trigger] merged(units)[j]).start_ms <= merged(
                units,
            )[j + 1].start_ms,
{
    lemma_lines_ascend(units);
    let all = lines(units);
    assert forall|j: int|
        0 <= j < merged(units).len() && (#[trigger] merged(units)[j]).end_ms is Some implies merged(
        units,
    )[j].start_ms <= merged(units)[j].end_ms.unwrap() by {
        assert(all[j].start_ms <= all[j + 1].start_ms);
    }
    assert forall|j: int| 0 <= j < merged(units).len() - 1 implies (#[trigger] merged(
        units,
    )[j]).start_ms <= merged(units)[j + 1].start_ms by {
        assert(all[j].start_ms <= all[j + 1].start_ms);
    }
}

/// How many of `units` hold a line break.
pub open spec fn break_count(units: Seq<UnitView>) -> nat
    decreases units.len(),
{
    if units.len() == 0 {
        0
    } else if ends_line(units.last().text) {
        break_count(units.drop_last()) + 1
    } else {
        break_count(units.drop_last())
    }
}

/// A merged track has one subtitle for each unit that holds a line break.
pub proof fn lemma_one_line_per_break(units: Seq<UnitView>)
    ensures
        merged(units).len() == break_count(units),
    decreases units.len(),
{
    if units.len() > 0 {
        lemma_one_line_per_break(units.drop_last());
    }
}

} // verus!
