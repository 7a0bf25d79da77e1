//! Choosing the caption track for the most preferred language.
//!
//! Languages are named by language tags. A preference is read as a language
//! range: `zh` stands for every kind of Chinese, `zh-TW` only for tags that
//! carry that region. What a tag is and when a range matches one is decided
//! by the `language-tags` crate.

use vstd::prelude::*;
use language_tags::{LanguageTag, ParseError};
use crate::error::CaptionError;
use crate::text::texts;

verus! {

/// One caption stream of a video: its language, and what to fetch it by.
#[derive(Clone, Debug, PartialEq, Eq)]
pub struct CaptionTrack {
    /// The language tag of the track, such as `en` or `zh-Hant`.
    pub language: String,
    /// What the fetcher needs to get the track's payload. Never looked into here.
    pub handle: String,
}

/// The language tags of a sequence of tracks, in order.
pub open spec fn languages(tracks: Seq<CaptionTrack>) -> Seq<Seq<char>> {
    Seq::new(tracks.len(), |i: int| tracks[i].language@)
}

/// Trusted: `language_tags::LanguageTag`, a well-formed language tag.
/// Nothing of its inside is known but what [`is_range`] and
/// [`range_matches`] say.
#[verifier::external_type_specification]
#[verifier::external_body]
pub struct ExLanguageTag(language_tags::LanguageTag);

/// Trusted: `language_tags::ParseError`, why a text is no tag. It is never
/// looked into.
#[verifier::external_type_specification]
#[verifier::external_body]
pub struct ExParseError(language_tags::ParseError);

/// The tag that `LanguageTag::parse` reads out of a text; `None` where it
/// takes the text for no well-formed tag.
pub uninterp spec fn parsed_tag(text: Seq<char>) -> Option<LanguageTag>;

/// What `LanguageTag::is_language_range` says of a tag: whether it can
/// serve as a language range, having neither extensions nor private-use
/// subtags.
pub uninterp spec fn is_range(tag: LanguageTag) -> bool;

/// What `LanguageTag::matches` says of a range and a tag: whether the range
/// matches the tag.
pub uninterp spec fn range_matches(range: LanguageTag, tag: LanguageTag) -> bool;

/// Trusted: `LanguageTag::parse`. Whether a text is a well-formed tag, and
/// which, depends on the text alone: the result is [`parsed_tag`] of the
/// text, and an error stands for `None`.
#[verifier::external_body]
fn parse_tag(text: &str) -> (outcome: Result<LanguageTag, ParseError>)
    ensures
        match outcome {
            Ok(tag) => parsed_tag(text@) == Some(tag),
            Err(_) => parsed_tag(text@) is None,
        },
{
    LanguageTag::parse(text)
}

/// Trusted: `LanguageTag::is_language_range`. Its answer depends on the tag
/// alone: it is [`is_range`] of the tag.
#[verifier::external_body]
fn tag_is_range(tag: &LanguageTag) -> (range: bool)
    ensures
        range == is_range(*tag),
{
    tag.is_language_range()
}

/// Trusted: `LanguageTag::matches`, which panics unless the receiver is a
/// language range. Its answer depends on the two tags alone: it is
/// [`range_matches`] of them.
#[verifier::external_body]
fn tag_matches(range: &LanguageTag, tag: &LanguageTag) -> (matched: bool)
    requires
        is_range(*range),
    ensures
        matched == range_matches(*range, *tag),
{
    range.matches(tag)
}

/// A preference matches a track when both are well-formed tags, the
/// preference is a language range, and the range matches the track's tag.
pub open spec fn matches(preference: Seq<char>, track: Seq<char>) -> bool {
    match (parsed_tag(preference), parsed_tag(track)) {
        (Some(range), Some(tag)) => is_range(range) && range_matches(range, tag),
        _ => false,
    }
}

/// For each track in turn, whether the preference matches it.
pub open spec fn match_row(preference: Seq<char>, tracks: Seq<Seq<char>>) -> Seq<bool> {
    Seq::new(tracks.len(), |t: int| matches(preference, tracks[t]))
}

/// The position of the first `true` from `from` on; `None` where there is none.
pub open spec fn first_set(flags: Seq<bool>, from: int) -> Option<int>
    decreases flags.len() - from,
{
    if from < 0 || from >= flags.len() {
        None
    } else if flags[from] {
        Some(from)
    } else {
        first_set(flags, from + 1)
    }
}

/// The first `true` is a `true` with none before it, and there is none
/// exactly when every flag is `false`.
pub proof fn lemma_first_set_is_earliest(flags: Seq<bool>, from: int)
    requires
        0 <= from,
    ensures
        match first_set(flags, from) {
            Some(found) => {
                &&& from <= found < flags.len()
                &&& flags[found]
                &&& forall|earlier: int| from <= earlier < found ==> !flags[earlier]
            },
            None => forall|i: int| from <= i < flags.len() ==> !flags[i],
        },
    decreases flags.len() - from,
{
    if from < flags.len() && !flags[from] {
        lemma_first_set_is_earliest(flags, from + 1);
    }
}

/// The position of the first track that the preference matches; `None`
/// where it matches none.
pub open spec fn first_track(preference: Seq<char>, tracks: Seq<Seq<char>>) -> Option<int> {
    first_set(match_row(preference, tracks), 0)
}

/// A preference matches at least one of the tracks.
pub open spec fn matches_any(preference: Seq<char>, tracks: Seq<Seq<char>>) -> bool {
    exists|t: int| 0 <= t < tracks.len() && matches(preference, #[trigger] tracks[t])
}

/// A preference has a first track that it matches exactly when it matches
/// at least one track.
pub proof fn lemma_matches_any(preference: Seq<char>, tracks: Seq<Seq<char>>)
    ensures
        first_track(preference, tracks) is Some <==> matches_any(preference, tracks),
{
    let row = match_row(preference, tracks);
    lemma_first_set_is_earliest(row, 0);
    if first_track(preference, tracks) is Some {
        let t = first_track(preference, tracks).unwrap();
        assert(row[t]);
        assert(matches(preference, tracks[t]));
    }
    if matches_any(preference, tracks) {
        let t = choose|t: int| 0 <= t < tracks.len() && matches(preference, #[trigger] tracks[t]);
        assert(row[t]);
    }
}

/// The position of the first preference, from `from` on, that matches a
/// track; `None` where none does.
pub open spec fn first_match(
    preferences: Seq<Seq<char>>,
    tracks: Seq<Seq<char>>,
    from: int,
) -> Option<int>
    decreases preferences.len() - from,
{
    if from < 0 || from >= preferences.len() {
        None
    } else if matches_any(preferences[from], tracks) {
        Some(from)
    } else {
        first_match(preferences, tracks, from + 1)
    }
}

/// The selector takes the earliest preference that matches at least one
/// track, and finds none exactly when no preference matches any track.
pub proof fn lemma_first_match_is_earliest(
    preferences: Seq<Seq<char>>,
    tracks: Seq<Seq<char>>,
    from: int,
)
    requires
        0 <= from,
    ensures
        match first_match(preferences, tracks, from) {
            Some(chosen) => {
                &&& from <= chosen < preferences.len()
                &&& matches_any(preferences[chosen], tracks)
                &&& forall|earlier: int|
                    from <= earlier < chosen ==> !matches_any(
                        #[trigger] preferences[earlier],
                        tracks,
                    )
            },
            None => forall|i: int|
                from <= i < preferences.len() ==> !matches_any(#[trigger] preferences[i], tracks),
        },
    decreases preferences.len() - from,
{
    if from < preferences.len() && !matches_any(preferences[from], tracks) {
        lemma_first_match_is_earliest(preferences, tracks, from + 1);
    }
}

/// Nothing matches when there are no tracks, and nothing is chosen when
/// there are no preferences.
pub proof fn lemma_nothing_to_choose(preferences: Seq<Seq<char>>, tracks: Seq<Seq<char>>)
    ensures
        tracks.len() == 0 ==> first_match(preferences, tracks, 0) is None,
        preferences.len() == 0 ==> first_match(preferences, tracks, 0) is None,
{
    if tracks.len() == 0 {
        lemma_first_match_is_earliest(preferences, tracks, 0);
    }
}

/// The tracks to try, best first: for each preference that matches a track,
/// in the order of the preferences, the first track that it matches.
pub open spec fn candidates(preferences: Seq<Seq<char>>, tracks: Seq<Seq<char>>) -> Seq<int>
    decreases preferences.len(),
{
    if preferences.len() == 0 {
        Seq::empty()
    } else {
        match first_track(preferences.last(), tracks) {
            Some(track) => candidates(preferences.drop_last(), tracks).push(track),
            None => candidates(preferences.drop_last(), tracks),
        }
    }
}

/// Positions in a list, as mathematical integers.
pub open spec fn positions(plan: Seq<usize>) -> Seq<int> {
    Seq::new(plan.len(), |i: int| plan[i] as int)
}

/// There is a track to try exactly when the selector finds a language, and
/// the first track to try is then the first one that this language matches.
pub proof fn lemma_best_candidate(preferences: Seq<Seq<char>>, tracks: Seq<Seq<char>>)
    ensures
        match first_match(preferences, tracks, 0) {
            Some(chosen) => candidates(preferences, tracks).len() > 0 && Some(
                candidates(preferences, tracks)[0],
            ) == first_track(preferences[chosen], tracks),
            None => candidates(preferences, tracks).len() == 0,
        },
    decreases preferences.len(),
{
    lemma_first_match_is_earliest(preferences, tracks, 0);
    if preferences.len() > 0 {
        let before = preferences.drop_last();
        lemma_matches_any(preferences.last(), tracks);
        lemma_best_candidate(before, tracks);
        lemma_first_match_is_earliest(before, tracks, 0);
        match first_match(before, tracks, 0) {
            Some(chosen) => {
                assert(before[chosen] == preferences[chosen]);
                assert(first_match(preferences, tracks, 0) == Some(chosen)) by {
                    let found = first_match(preferences, tracks, 0);
                    assert(matches_any(preferences[chosen], tracks));
                    assert forall|earlier: int| 0 <= earlier < chosen implies !matches_any(
                        #[trigger] preferences[earlier],
                        tracks,
                    ) by {
                        assert(before[earlier] == preferences[earlier]);
                    }
                }
            },
            None => {
                assert forall|i: int| 0 <= i < before.len() implies !matches_any(
                    #[trigger] preferences[i],
                    tracks,
                ) by {
                    assert(before[i] == preferences[i]);
                }
            },
        }
    }
}

/// Every track to try is one of the tracks.
pub proof fn lemma_candidates_are_tracks(preferences: Seq<Seq<char>>, tracks: Seq<Seq<char>>)
    ensures
        candidates(preferences, tracks).len() <= preferences.len(),
        forall|i: int|
            0 <= i < candidates(preferences, tracks).len() ==> 0 <= (#[trigger] candidates(
                preferences,
                tracks,
            )[i]) < tracks.len(),
    decreases preferences.len(),
{
    if preferences.len() > 0 {
        lemma_candidates_are_tracks(preferences.drop_last(), tracks);
        lemma_first_set_is_earliest(match_row(preferences.last(), tracks), 0);
    }
}

/// Finds the first flag that is set.
pub fn position_of_first(flags: &Vec<bool>) -> (found: Option<usize>)
    ensures
        match found {
            Some(position) => first_set(flags@, 0) == Some(position as int),
            None => first_set(flags@, 0) is None,
        },
{
    let mut i: usize = 0;
    while i < flags.len()
        invariant
            i <= flags.len(),
            first_set(flags@, 0) == first_set(flags@, i as int),
        decreases flags.len() - i,
    {
        if flags[i] {
            return Some(i);
        }
        i = i + 1;
    }
    None
}

fn parse_tracks(tracks: &Vec<CaptionTrack>) -> (tags: Vec<Option<LanguageTag>>)
    ensures
        tags.len() == tracks.len(),
        forall|t: int|
            0 <= t < tracks.len() ==> (#[trigger] tags[t]) == parsed_tag(tracks[t].language@),
{
    let mut tags: Vec<Option<LanguageTag>> = Vec::new();
    let mut t: usize = 0;
    while t < tracks.len()
        invariant
            t <= tracks.len(),
            tags.len() == t,
            forall|u: int| 0 <= u < t ==> (#[trigger] tags[u]) == parsed_tag(tracks[u].language@),
        decreases tracks.len() - t,
    {
        let tag = match parse_tag(tracks[t].language.as_str()) {
            Ok(tag) => Some(tag),
            Err(_) => None,
        };
        tags.push(tag);
        t = t + 1;
    }
    tags
}

fn row_of(
    preference: &str,
    tags: &Vec<Option<LanguageTag>>,
    Ghost(tracks): Ghost<Seq<Seq<char>>>,
) -> (row: Vec<bool>)
    requires
        tags.len() == tracks.len(),
        forall|t: int| 0 <= t < tracks.len() ==> (#[trigger] tags[t]) == parsed_tag(tracks[t]),
    ensures
        row@ == match_row(preference@, tracks),
{
    let range = match parse_tag(preference) {
        Ok(range) => if tag_is_range(&range) {
            Some(range)
        } else {
            None
        },
        Err(_) => None,
    };
    let mut row: Vec<bool> = Vec::new();
    let mut t: usize = 0;
    while t < tags.len()
        invariant
            t <= tags.len(),
            tags.len() == tracks.len(),
            row.len() == t,
            match range {
                Some(range) => parsed_tag(preference@) == Some(range) && is_range(range),
                None => parsed_tag(preference@) is None || !is_range(
                    parsed_tag(preference@).unwrap(),
                ),
            },
            forall|u: int| 0 <= u < tracks.len() ==> (#[trigger] tags[u]) == parsed_tag(tracks[u]),
            forall|u: int| 0 <= u < t ==> row[u] == matches(preference@, #[trigger] tracks[u]),
        decreases tags.len() - t,
    {
        let matched = match (&range, &tags[t]) {
            (Some(range), Some(tag)) => tag_matches(range, tag),
            _ => false,
        };
        row.push(matched);
        t = t + 1;
    }
    assert(row@ =~= match_row(preference@, tracks));
    row
}

/// Whether a preference matches a track's language.
///
/// A text that is no well-formed tag matches nothing and is matched by
/// nothing, and so does a preference with extensions or private-use subtags.
pub fn language_matches(preference: &str, track: &str) -> (matched: bool)
    ensures
        matched == matches(preference@, track@),
{
    let range = match parse_tag(preference) {
        Ok(range) => range,
        Err(_) => {
            return false;
        },
    };
    let tag = match parse_tag(track) {
        Ok(tag) => tag,
        Err(_) => {
            return false;
        },
    };
    tag_is_range(&range) && tag_matches(&range, &tag)
}

/// Finds the first track whose language the preference matches.
pub fn find_track(preference: &str, tracks: &Vec<CaptionTrack>) -> (found: Option<usize>)
    ensures
        match found {
            Some(t) => first_track(preference@, languages(tracks@)) == Some(t as int),
            None => first_track(preference@, languages(tracks@)) is None,
        },
{
    let tags = parse_tracks(tracks);
    let row = row_of(preference, &tags, Ghost(languages(tracks@)));
    position_of_first(&row)
}

/// Finds the first preference, from position `from` on, that matches at
/// least one track.
fn next_match(preferences: &Vec<String>, tracks: &Vec<CaptionTrack>, from: usize) -> (found:
    Option<usize>)
    ensures
        match found {
            Some(chosen) => first_match(texts(preferences@), languages(tracks@), from as int)
                == Some(chosen as int),
            None => first_match(texts(preferences@), languages(tracks@), from as int) is None,
        },
{
    let tags = parse_tracks(tracks);
    let ghost wanted = texts(preferences@);
    let ghost offered = languages(tracks@);
    let mut i: usize = from;
    while i < preferences.len()
        invariant
            from <= i,
            wanted == texts(preferences@),
            offered == languages(tracks@),
            tags.len() == offered.len(),
            forall|t: int|
                0 <= t < offered.len() ==> (#[trigger] tags[t]) == parsed_tag(offered[t]),
            first_match(wanted, offered, from as int) == first_match(wanted, offered, i as int),
        decreases preferences.len() - i,
    {
        let row = row_of(preferences[i].as_str(), &tags, Ghost(offered));
        proof {
            lemma_matches_any(wanted[i as int], offered);
        }
        match position_of_first(&row) {
            Some(_) => {
                return Some(i);
            },
            None => {},
        }
        i = i + 1;
    }
    None
}

/// Chooses the language to show captions in.
///
/// Yields the earliest preference that matches at least one of the tracks,
/// and fails with [`CaptionError::NoMatchingLanguage`] exactly when no
/// preference matches any track.
pub fn get_caption_language(preferences: &Vec<String>, tracks: &Vec<CaptionTrack>) -> (outcome:
    Result<String, CaptionError>)
    ensures
        match outcome {
            Ok(language) => {
                let chosen = first_match(texts(preferences@), languages(tracks@), 0);
                &&& chosen is Some
                &&& language@ == preferences[chosen.unwrap()]@
                &&& matches_any(language@, languages(tracks@))
                &&& forall|earlier: int|
                    0 <= earlier < chosen.unwrap() ==> !matches_any(
                        #[trigger] preferences[earlier]@,
                        languages(tracks@),
                    )
            },
            Err(error) => {
                &&& error == CaptionError::NoMatchingLanguage
                &&& first_match(texts(preferences@), languages(tracks@), 0) is None
                &&& forall|i: int|
                    0 <= i < preferences.len() ==> !matches_any(
                        #[trigger] preferences[i]@,
                        languages(tracks@),
                    )
            },
        },
{
    proof {
        let wanted = texts(preferences@);
        lemma_first_match_is_earliest(wanted, languages(tracks@), 0);
        assert forall|i: int| 0 <= i < preferences.len() implies wanted[i]
            == #[trigger] preferences[i]@ by {}
    }
    match next_match(preferences, tracks, 0) {
        Some(chosen) => Ok(preferences[chosen].clone()),
        None => Err(CaptionError::NoMatchingLanguage),
    }
}

/// Lists the tracks to try, best first: for each preference that matches a
/// track, in the order of the preferences, the first track that it matches.
pub fn candidate_tracks(preferences: &Vec<String>, tracks: &Vec<CaptionTrack>) -> (plan: Vec<
    usize,
>)
    ensures
        positions(plan@) == candidates(texts(preferences@), languages(tracks@)),
        forall|i: int| 0 <= i < plan.len() ==> (#[trigger] plan[i]) < tracks.len(),
{
    let tags = parse_tracks(tracks);
    let ghost wanted = texts(preferences@);
    let ghost offered = languages(tracks@);
    let mut plan: Vec<usize> = Vec::new();
    let mut i: usize = 0;
    while i < preferences.len()
        invariant
            i <= preferences.len(),
            wanted == texts(preferences@),
            offered == languages(tracks@),
            tags.len() == offered.len(),
            offered.len() == tracks.len(),
            forall|t: int|
                0 <= t < offered.len() ==> (#[trigger] tags[t]) == parsed_tag(offered[t]),
            positions(plan@) == candidates(wanted.take(i as int), offered),
            forall|k: int| 0 <= k < plan.len() ==> (#[trigger] plan[k]) < tracks.len(),
        decreases preferences.len() - i,
    {
        let ghost before = positions(plan@);
        proof {
            assert(wanted.take(i + 1).drop_last() =~= wanted.take(i as int));
            assert(wanted.take(i + 1).last() == preferences[i as int]@);
        }
        let row = row_of(preferences[i].as_str(), &tags, Ghost(offered));
        match position_of_first(&row) {
            Some(track) => {
                proof {
                    lemma_first_set_is_earliest(row@, 0);
                }
                plan.push(track);
                assert(positions(plan@) =~= before.push(track as int));
            },
            None => {},
        }
        i = i + 1;
    }
    assert(wanted.take(i as int) =~= wanted);
    plan
}

/// The position of the first preference, from `from` on, that is a
/// well-formed tag; `None` where none is.
pub open spec fn first_tag(preferences: Seq<Seq<char>>, from: int) -> Option<int>
    decreases preferences.len() - from,
{
    if from < 0 || from >= preferences.len() {
        None
    } else if parsed_tag(preferences[from]) is Some {
        Some(from)
    } else {
        first_tag(preferences, from + 1)
    }
}

/// The first well-formed preference is well-formed and nothing before it is;
/// there is none exactly when no preference is well-formed.
pub proof fn lemma_first_tag_is_earliest(preferences: Seq<Seq<char>>, from: int)
    requires
        0 <= from,
    ensures
        match first_tag(preferences, from) {
            Some(chosen) => {
                &&& from <= chosen < preferences.len()
                &&& parsed_tag(preferences[chosen]) is Some
                &&& forall|earlier: int|
                    from <= earlier < chosen ==> parsed_tag(#[trigger] preferences[earlier])
                        is None
            },
            None => forall|i: int|
                from <= i < preferences.len() ==> parsed_tag(#[trigger] preferences[i]) is None,
        },
    decreases preferences.len() - from,
{
    if from < preferences.len() && parsed_tag(preferences[from]) is None {
        lemma_first_tag_is_earliest(preferences, from + 1);
    }
}

/// Finds the first preference that is a well-formed language tag, whatever
/// the tracks on offer.
pub fn find_preferred_language(preferences: &Vec<String>) -> (found: Option<String>)
    ensures
        match found {
            Some(language) => {
                let chosen = first_tag(texts(preferences@), 0);
                chosen is Some && language@ == preferences[chosen.unwrap()]@
            },
            None => first_tag(texts(preferences@), 0) is None,
        },
{
    let ghost wanted = texts(preferences@);
    let mut i: usize = 0;
    while i < preferences.len()
        invariant
            i <= preferences.len(),
            wanted == texts(preferences@),
            first_tag(wanted, 0) == first_tag(wanted, i as int),
        decreases preferences.len() - i,
    {
        match parse_tag(preferences[i].as_str()) {
            Ok(_) => {
                return Some(preferences[i].clone());
            },
            Err(_) => {},
        }
        i = i + 1;
    }
    None
}

} // verus!
