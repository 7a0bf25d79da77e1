//! From the timed-text payload of a track to its atomic units.
//!
//! The payload is a JSON object with a member `events`, a list. An event is an
//! object that may carry `tStartMs` and `dDurationMs`, whole numbers of
//! milliseconds, and `segs`, a list of objects with a string member `utf8`.
//! A missing member and a `null` are the same. Anything else is malformed.

use vstd::prelude::*;
use serde_json::Value;
use crate::error::CaptionError;
use crate::json::{
    elements, elements_of, is_object, json_of, member, member_of, optional, optional_of, parse_json,
    parsed_json, text_member, text_member_of, whole, whole_of,
};
use crate::subtitle::{unit_views, AtomicSubtitleUnit, UnitView};
use crate::text::texts;

verus! {

/// One entry of the payload: when it starts, how long it lasts, and its
/// pieces of text. Either time may be missing, and there may be no text.
#[derive(Clone, Debug, PartialEq, Eq)]
pub struct RawEvent {
    pub start_ms: Option<u64>,
    pub duration_ms: Option<u64>,
    pub segments: Vec<String>,
}

/// What a [`RawEvent`] is, as plain mathematical values.
pub struct EventView {
    pub start_ms: Option<nat>,
    pub duration_ms: Option<nat>,
    pub segments: Seq<Seq<char>>,
}

/// A count of milliseconds that may be missing, as a mathematical value.
pub open spec fn time_view(time: Option<u64>) -> Option<nat> {
    match time {
        Some(ms) => Some(ms as nat),
        None => None,
    }
}

impl View for RawEvent {
    type V = EventView;

    open spec fn view(&self) -> EventView {
        EventView {
            start_ms: time_view(self.start_ms),
            duration_ms: time_view(self.duration_ms),
            segments: texts(self.segments@),
        }
    }
}

/// The views of a sequence of events, in order.
pub open spec fn event_views(events: Seq<RawEvent>) -> Seq<EventView> {
    Seq::new(events.len(), |i: int| events[i]@)
}

/// The name of the member that holds an event's start.
pub open spec fn start_key() -> Seq<char> {
    "tStartMs"@
}

/// The name of the member that holds an event's duration.
pub open spec fn duration_key() -> Seq<char> {
    "dDurationMs"@
}

/// The name of the member that holds an event's segments.
pub open spec fn segments_key() -> Seq<char> {
    "segs"@
}

/// The name of the member that holds a segment's text.
pub open spec fn text_key() -> Seq<char> {
    "utf8"@
}

/// The name of the member that holds the payload's events.
pub open spec fn events_key() -> Seq<char> {
    "events"@
}

/// A time of an event: `Some(None)` where the member is absent, `Some(Some(ms))`
/// where it is a whole number of milliseconds, `None` where it is anything else.
pub open spec fn timing(event: Value, key: Seq<char>) -> Option<Option<nat>> {
    match optional_of(event, key) {
        None => Some(None),
        Some(time) => match whole_of(time) {
            Some(ms) => Some(Some(ms as nat)),
            None => None,
        },
    }
}

/// The text of a segment; `None` where the segment is no object with a
/// string member `utf8`.
pub open spec fn segment_text(segment: Value) -> Option<Seq<char>> {
    text_member_of(segment, text_key())
}

/// The texts of an event's segments, none where the member is absent; `None`
/// where the member is no list or one of its elements is no segment.
pub open spec fn segments(event: Value) -> Option<Seq<Seq<char>>> {
    match optional_of(event, segments_key()) {
        None => Some(Seq::empty()),
        Some(list) => match elements_of(list) {
            Some(items) => if forall|i: int|
                0 <= i < items.len() ==> (#[trigger] segment_text(items[i])) is Some {
                Some(Seq::new(items.len(), |i: int| segment_text(items[i]).unwrap()))
            } else {
                None
            },
            None => None,
        },
    }
}

/// The event that a JSON value denotes; `None` where it has not the shape of one.
pub open spec fn event_of(value: Value) -> Option<EventView> {
    if json_of(value) is Object && timing(value, start_key()) is Some && timing(
        value,
        duration_key(),
    ) is Some && segments(value) is Some {
        Some(
            EventView {
                start_ms: timing(value, start_key()).unwrap(),
                duration_ms: timing(value, duration_key()).unwrap(),
                segments: segments(value).unwrap(),
            },
        )
    } else {
        None
    }
}

/// The events of a payload, in its order; `None` where the document has not
/// the shape of a payload.
pub open spec fn events_of(root: Value) -> Option<Seq<EventView>> {
    match member_of(root, events_key()) {
        Some(list) => match elements_of(list) {
            Some(items) => if forall|i: int|
                0 <= i < items.len() ==> (#[trigger] event_of(items[i])) is Some {
                Some(Seq::new(items.len(), |i: int| event_of(items[i]).unwrap()))
            } else {
                None
            },
            None => None,
        },
        None => None,
    }
}

/// An event can be placed in time when it has both a start and a duration.
pub open spec fn timed(event: EventView) -> bool {
    event.start_ms is Some && event.duration_ms is Some
}

/// The end of a timed event is a time that a unit can hold.
pub open spec fn ends_in_range(event: EventView) -> bool {
    timed(event) ==> event.start_ms.unwrap() + event.duration_ms.unwrap() <= u64::MAX
}

/// Every timed event ends at a time that a unit can hold.
pub open spec fn all_in_range(events: Seq<EventView>) -> bool {
    forall|i: int| 0 <= i < events.len() ==> ends_in_range(#[trigger] events[i])
}

/// The units of the event at position `index`: none where the event lacks a
/// time, else one for each segment, all numbered `index + 1`, all from the
/// event's start to its start plus its duration, each with its segment's text.
pub open spec fn units_of_event(event: EventView, index: int) -> Seq<UnitView> {
    if timed(event) {
        Seq::new(
            event.segments.len(),
            |k: int|
                UnitView {
                    id: (index + 1) as nat,
                    text: event.segments[k],
                    start_ms: event.start_ms.unwrap(),
                    end_ms: event.start_ms.unwrap() + event.duration_ms.unwrap(),
                },
        )
    } else {
        Seq::empty()
    }
}

/// The units of a sequence of events: those of each event, in the events' order.
pub open spec fn units_of(events: Seq<EventView>) -> Seq<UnitView>
    decreases events.len(),
{
    if events.len() == 0 {
        Seq::empty()
    } else {
        units_of(events.drop_last()) + units_of_event(events.last(), events.len() - 1)
    }
}

/// The units that a parsed document yields; `None` where it is no payload or
/// an event ends out of range.
pub open spec fn units_of_json(root: Value) -> Option<Seq<UnitView>> {
    match events_of(root) {
        Some(events) => if all_in_range(events) {
            Some(units_of(events))
        } else {
            None
        },
        None => None,
    }
}

/// The units that a payload text yields; `None` where it is malformed.
pub open spec fn units_of_text(text: Seq<char>) -> Option<Seq<UnitView>> {
    match parsed_json(text) {
        Some(root) => units_of_json(root),
        None => None,
    }
}

/// An event without a start or without a duration yields no unit, whatever
/// else it holds.
pub proof fn lemma_untimed_event_is_dropped(event: EventView, index: int)
    requires
        event.start_ms is None || event.duration_ms is None,
    ensures
        units_of_event(event, index).len() == 0,
{
}

/// An event without segments yields no unit.
pub proof fn lemma_empty_event_is_dropped(event: EventView, index: int)
    requires
        event.segments.len() == 0,
    ensures
        units_of_event(event, index).len() == 0,
{
}

/// Units come out in the order of their events: their ids lie between one
/// and the number of events and never go down, and units with the same id
/// share their start and their end.
pub proof fn lemma_units_follow_events(events: Seq<EventView>)
    ensures
        forall|a: int|
            0 <= a < units_of(events).len() ==> 1 <= (#[trigger] units_of(events)[a]).id
                <= events.len(),
        forall|a: int, b: int|
            0 <= a <= b < units_of(events).len() ==> (#[trigger] units_of(events)[a]).id <= (
            #[trigger] units_of(events)[b]).id,
        forall|a: int, b: int|
            0 <= a < units_of(events).len() && 0 <= b < units_of(events).len() && (
            #[trigger] units_of(events)[a]).id == (#[trigger] units_of(events)[b]).id ==> units_of(
                events,
            )[a].start_ms == units_of(events)[b].start_ms && units_of(events)[a].end_ms
                == units_of(events)[b].end_ms,
    decreases events.len(),
{
    if events.len() > 0 {
        let earlier = units_of(events.drop_last());
        let fresh = units_of_event(events.last(), events.len() - 1);
        let all = units_of(events);
        lemma_units_follow_events(events.drop_last());
        assert(all == earlier + fresh);
        assert forall|a: int| 0 <= a < all.len() implies (if a < earlier.len() {
            all[a] == earlier[a] && 1 <= all[a].id < events.len()
        } else {
            all[a] == fresh[a - earlier.len()] && all[a].id == events.len()
        }) by {}
        assert forall|a: int, b: int|
            0 <= a < all.len() && 0 <= b < all.len() && (#[trigger] all[a]).id == (
            #[trigger] all[b]).id implies all[a].start_ms == all[b].start_ms && all[a].end_ms
            == all[b].end_ms by {
            if a < earlier.len() {
                assert(all[a] == earlier[a] && all[b] == earlier[b]);
            } else {
                assert(all[a] == fresh[a - earlier.len()] && all[b] == fresh[b - earlier.len()]);
            }
        }
    }
}

/// No unit ends before it starts.
pub proof fn lemma_units_span_forward(events: Seq<EventView>)
    ensures
        forall|a: int|
            0 <= a < units_of(events).len() ==> (#[trigger] units_of(events)[a]).start_ms
                <= units_of(events)[a].end_ms,
    decreases events.len(),
{
    if events.len() > 0 {
        let earlier = units_of(events.drop_last());
        let fresh = units_of_event(events.last(), events.len() - 1);
        let all = units_of(events);
        lemma_units_span_forward(events.drop_last());
        assert forall|a: int| 0 <= a < all.len() implies (#[trigger] all[a]).start_ms
            <= all[a].end_ms by {
            if a < earlier.len() {
                assert(all[a] == earlier[a]);
            } else {
                assert(all[a] == fresh[a - earlier.len()]);
            }
        }
    }
}

fn timing_of(event: &Value, key: &str) -> (outcome: Result<Option<u64>, CaptionError>)
    ensures
        match outcome {
            Ok(found) => timing(*event, key@) == Some(time_view(found)),
            Err(error) => error == CaptionError::MalformedPayload && timing(*event, key@)
                is None,
        },
{
    match optional(event, key) {
        None => Ok(None),
        Some(inner) => match whole(inner) {
            Some(ms) => Ok(Some(ms)),
            None => Err(CaptionError::MalformedPayload),
        },
    }
}

fn segments_of(event: &Value) -> (outcome: Result<Vec<String>, CaptionError>)
    ensures
        match outcome {
            Ok(found) => segments(*event) == Some(texts(found@)),
            Err(error) => error == CaptionError::MalformedPayload && segments(*event)
                is None,
        },
{
    let mut found: Vec<String> = Vec::new();
    let list = match optional(event, "segs") {
        None => {
            assert(texts(found@) =~= Seq::<Seq<char>>::empty());
            return Ok(found);
        },
        Some(inner) => match elements(inner) {
            Some(list) => list,
            None => {
                return Err(CaptionError::MalformedPayload);
            },
        },
    };
    let ghost items = list@;
    let mut i: usize = 0;
    while i < list.len()
        invariant
            i <= list.len(),
            items == list@,
            optional_of(*event, segments_key()) is Some,
            elements_of(optional_of(*event, segments_key()).unwrap()) == Some(items),
            found.len() == i,
            forall|j: int| 0 <= j < i ==> (#[trigger] segment_text(items[j])) == Some(found[j]@),
        decreases list.len() - i,
    {
        let text = match text_member(&list[i], "utf8") {
            Some(text) => text,
            None => {
                assert(segment_text(items[i as int]) is None);
                return Err(CaptionError::MalformedPayload);
            },
        };
        found.push(text.to_owned());
        i = i + 1;
    }
    assert(texts(found@) =~= Seq::new(items.len(), |i: int| segment_text(items[i]).unwrap()));
    Ok(found)
}

fn event_of_json(value: &Value) -> (outcome: Result<RawEvent, CaptionError>)
    ensures
        match outcome {
            Ok(event) => event_of(*value) == Some(event@),
            Err(error) => error == CaptionError::MalformedPayload && event_of(*value)
                is None,
        },
{
    if !is_object(value) {
        return Err(CaptionError::MalformedPayload);
    }
    let start_ms = match timing_of(value, "tStartMs") {
        Ok(found) => found,
        Err(error) => {
            return Err(error);
        },
    };
    let duration_ms = match timing_of(value, "dDurationMs") {
        Ok(found) => found,
        Err(error) => {
            return Err(error);
        },
    };
    let segments = match segments_of(value) {
        Ok(found) => found,
        Err(error) => {
            return Err(error);
        },
    };
    Ok(RawEvent { start_ms, duration_ms, segments })
}

/// Reads the events out of a parsed payload.
///
/// Succeeds exactly when the document has the shape of a payload, and then
/// yields its events in their order; otherwise the payload is malformed.
pub fn events_of_json(root: &Value) -> (outcome: Result<Vec<RawEvent>, CaptionError>)
    ensures
        match outcome {
            Ok(events) => events_of(*root) == Some(event_views(events@)),
            Err(error) => error == CaptionError::MalformedPayload && events_of(*root)
                is None,
        },
{
    let list = match member(root, "events") {
        Some(inner) => match elements(inner) {
            Some(list) => list,
            None => {
                return Err(CaptionError::MalformedPayload);
            },
        },
        None => {
            return Err(CaptionError::MalformedPayload);
        },
    };
    let ghost items = list@;
    let mut events: Vec<RawEvent> = Vec::new();
    let mut i: usize = 0;
    while i < list.len()
        invariant
            i <= list.len(),
            items == list@,
            member_of(*root, events_key()) is Some,
            elements_of(member_of(*root, events_key()).unwrap()) == Some(items),
            events.len() == i,
            forall|j: int| 0 <= j < i ==> (#[trigger] event_of(items[j])) == Some(events[j]@),
        decreases list.len() - i,
    {
        match event_of_json(&list[i]) {
            Ok(event) => {
                events.push(event);
            },
            Err(error) => {
                assert(event_of(items[i as int]) is None);
                return Err(error);
            },
        }
        i = i + 1;
    }
    assert(event_views(events@) =~= Seq::new(items.len(), |i: int| event_of(items[i]).unwrap()));
    Ok(events)
}

/// Turns events into atomic units.
///
/// An event that lacks its start or its duration is skipped, and so is one
/// without segments. Every other event yields one unit for each segment; the
/// units carry the event's position plus one as their id, run from the event's
/// start to its start plus its duration, and hold the segment's text untouched.
/// The payload is malformed exactly when some event that has both times would
/// end after the largest time a unit can hold.
pub fn units_of_events(events: &Vec<RawEvent>) -> (outcome: Result<
    Vec<AtomicSubtitleUnit>,
    CaptionError,
>)
    ensures
        match outcome {
            Ok(units) => all_in_range(event_views(events@)) && unit_views(units@) == units_of(
                event_views(events@),
            ),
            Err(error) => error == CaptionError::MalformedPayload && !all_in_range(
                event_views(events@),
            ),
        },
{
    let ghost views = event_views(events@);
    let mut units: Vec<AtomicSubtitleUnit> = Vec::new();
    let mut i: usize = 0;
    while i < events.len()
        invariant
            i <= events.len(),
            views == event_views(events@),
            all_in_range(views.take(i as int)),
            unit_views(units@) == units_of(views.take(i as int)),
        decreases events.len() - i,
    {
        let event = &events[i];
        let ghost done = units_of(views.take(i as int));
        proof {
            assert(views.take(i + 1).drop_last() =~= views.take(i as int));
            assert(views[i as int] == event@);
        }
        match (event.start_ms, event.duration_ms) {
            (Some(start_ms), Some(duration_ms)) => {
                if duration_ms > u64::MAX - start_ms {
                    assert(!ends_in_range(views[i as int]));
                    return Err(CaptionError::MalformedPayload);
                }
                let end_ms = start_ms + duration_ms;
                let id = i as u64 + 1;
                let ghost fresh = units_of_event(views[i as int], i as int);
                let mut k: usize = 0;
                while k < event.segments.len()
                    invariant
                        k <= event.segments.len(),
                        i < events.len(),
                        event == &events[i as int],
                        views == event_views(events@),
                        fresh == units_of_event(views[i as int], i as int),
                        fresh.len() == event.segments.len(),
                        id == i + 1,
                        event.start_ms == Some(start_ms),
                        event.duration_ms == Some(duration_ms),
                        end_ms == start_ms + duration_ms,
                        unit_views(units@) == done + fresh.take(k as int),
                    decreases event.segments.len() - k,
                {
                    let ghost prior = unit_views(units@);
                    let text = event.segments[k].clone();
                    let unit = AtomicSubtitleUnit { id, text, start_ms, end_ms };
                    assert(unit@ == fresh[k as int]) by {
                        assert(views[i as int] == events[i as int]@);
                        assert(views[i as int].segments[k as int] == event.segments[k as int]@);
                    }
                    units.push(unit);
                    assert(unit_views(units@) =~= prior.push(fresh[k as int]));
                    assert(fresh.take(k + 1) =~= fresh.take(k as int).push(fresh[k as int]));
                    assert(unit_views(units@) =~= done + fresh.take(k + 1));
                    k = k + 1;
                }
                assert(fresh.take(k as int) =~= fresh);
            },
            _ => {
                assert(unit_views(units@) =~= done + units_of_event(views[i as int], i as int));
            },
        }
        assert(all_in_range(views.take(i + 1))) by {
            assert forall|j: int| 0 <= j < i + 1 implies ends_in_range(
                #[trigger] views.take(i + 1)[j],
            ) by {
                if j < i {
                    assert(views.take(i + 1)[j] == views.take(i as int)[j]);
                }
            }
        }
        i = i + 1;
    }
    assert(views.take(i as int) =~= views);
    Ok(units)
}

/// Parses the timed-text payload of a track into its atomic units.
///
/// Succeeds exactly when the text is JSON of the payload's shape whose timed
/// events all end in range; otherwise the payload is malformed.
pub fn parse_payload(text: &str) -> (outcome: Result<Vec<AtomicSubtitleUnit>, CaptionError>)
    ensures
        match outcome {
            Ok(units) => units_of_text(text@) == Some(unit_views(units@)),
            Err(error) => error == CaptionError::MalformedPayload && units_of_text(text@) is None,
        },
{
    let root = match parse_json(text) {
        Ok(root) => root,
        Err(_) => {
            return Err(CaptionError::MalformedPayload);
        },
    };
    match events_of_json(&root) {
        Ok(events) => units_of_events(&events),
        Err(error) => Err(error),
    }
}

} // verus!
