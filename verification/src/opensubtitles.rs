//! Reading the answers of the subtitle search service.
//!
//! A search answers with an object whose member `data` lists the subtitles
//! found; a request for a download answers with an object whose member `link`
//! says where the file is.

use vstd::prelude::*;
use vstd::string::StringExecFns;
use serde_json::Value;
use crate::json::{
    elements, elements_of, member, member_of, parse_json, parsed_json, render, rendered,
    text_member, text_member_of,
};
use crate::text::{replace_char, replaced};

verus! {

/// One subtitle that a search found.
#[derive(Clone, Debug, PartialEq, Eq)]
pub struct SubtitleSearchResult {
    pub file_name: String,
    pub language: String,
    pub download_url: String,
    /// What to ask the download for.
    pub file_id: String,
}

/// What a [`SubtitleSearchResult`] is, as plain mathematical values.
pub struct SearchResultView {
    pub file_name: Seq<char>,
    pub language: Seq<char>,
    pub download_url: Seq<char>,
    pub file_id: Seq<char>,
}

impl View for SubtitleSearchResult {
    type V = SearchResultView;

    open spec fn view(&self) -> SearchResultView {
        SearchResultView {
            file_name: self.file_name@,
            language: self.language@,
            download_url: self.download_url@,
            file_id: self.file_id@,
        }
    }
}

/// The views of a sequence of results, in order.
pub open spec fn result_views(results: Seq<SubtitleSearchResult>) -> Seq<SearchResultView> {
    Seq::new(results.len(), |i: int| results[i]@)
}

/// Why an answer of the service could not be used.
#[derive(Debug)]
pub enum AnswerError {
    /// The answer is not JSON.
    NotJson(serde_json::Error),
    /// A search answer without a list `data`.
    MissingData,
    /// A download answer without a string `link`.
    MissingLink,
}

/// Where the page of a subtitle lives: this, followed by the subtitle's slug.
pub open spec fn page_prefix() -> Seq<char> {
    "https://www.opensubtitles.com/en/subtitles/"@
}

/// The first file of a subtitle; `None` where its attributes have no list
/// `files` or the list is empty.
pub open spec fn first_file(attributes: Value) -> Option<Value> {
    match member_of(attributes, "files"@) {
        Some(files) => match elements_of(files) {
            Some(list) => if list.len() > 0 {
                Some(list[0])
            } else {
                None
            },
            None => None,
        },
        None => None,
    }
}

/// The id of a file as text: its `file_id`, written as JSON, without any
/// double quote. `None` where the file has no `file_id`.
pub open spec fn file_id_of(file: Value) -> Option<Seq<char>> {
    match member_of(file, "file_id"@) {
        Some(id) => Some(replaced(rendered(id), '"', Seq::empty())),
        None => None,
    }
}

/// The search result that an entry of `data` stands for. An entry counts
/// when it has `attributes` with a first file that has a `file_id`, and with
/// strings `release`, `language` and `slug`; any other entry is passed over.
pub open spec fn search_result_of(entry: Value) -> Option<SearchResultView> {
    match member_of(entry, "attributes"@) {
        Some(attributes) => match first_file(attributes) {
            Some(file) => if text_member_of(attributes, "release"@) is Some && text_member_of(
                attributes,
                "language"@,
            ) is Some && text_member_of(attributes, "slug"@) is Some && file_id_of(file)
                is Some {
                Some(
                    SearchResultView {
                        file_name: text_member_of(attributes, "release"@).unwrap(),
                        language: text_member_of(attributes, "language"@).unwrap(),
                        download_url: page_prefix() + text_member_of(attributes, "slug"@).unwrap(),
                        file_id: file_id_of(file).unwrap(),
                    },
                )
            } else {
                None
            },
            None => None,
        },
        None => None,
    }
}

/// The search results that a list of entries stands for: those of the
/// entries that count, in the order of the list.
pub open spec fn search_results_of(entries: Seq<Value>) -> Seq<SearchResultView>
    decreases entries.len(),
{
    if entries.len() == 0 {
        Seq::empty()
    } else {
        match search_result_of(entries.last()) {
            Some(result) => search_results_of(entries.drop_last()).push(result),
            None => search_results_of(entries.drop_last()),
        }
    }
}

/// The entries of a search answer; `None` where it has no list `data`.
pub open spec fn data_of(answer: Value) -> Option<Seq<Value>> {
    match member_of(answer, "data"@) {
        Some(data) => elements_of(data),
        None => None,
    }
}

fn first_file_of<'a>(attributes: &'a Value) -> (found: Option<&'a Value>)
    ensures
        match found {
            Some(file) => first_file(*attributes) == Some(*file),
            None => first_file(*attributes) is None,
        },
{
    let files = match member(attributes, "files") {
        Some(files) => files,
        None => {
            return None;
        },
    };
    let list = match elements(files) {
        Some(list) => list,
        None => {
            return None;
        },
    };
    if list.len() > 0 {
        Some(&list[0])
    } else {
        None
    }
}

/// Reads one entry of a search answer.
pub fn search_result(entry: &Value) -> (found: Option<SubtitleSearchResult>)
    ensures
        match found {
            Some(result) => search_result_of(*entry) == Some(result@),
            None => search_result_of(*entry) is None,
        },
{
    let attributes = match member(entry, "attributes") {
        Some(attributes) => attributes,
        None => {
            return None;
        },
    };
    let file = match first_file_of(attributes) {
        Some(file) => file,
        None => {
            return None;
        },
    };
    let file_name = match text_member(attributes, "release") {
        Some(text) => text,
        None => {
            return None;
        },
    };
    let language = match text_member(attributes, "language") {
        Some(text) => text,
        None => {
            return None;
        },
    };
    let slug = match text_member(attributes, "slug") {
        Some(text) => text,
        None => {
            return None;
        },
    };
    let id = match member(file, "file_id") {
        Some(id) => id,
        None => {
            return None;
        },
    };
    proof {
        reveal_strlit("");
        assert(""@ =~= Seq::<char>::empty());
    }
    let written = render(id);
    Some(
        SubtitleSearchResult {
            file_name: file_name.to_owned(),
            language: language.to_owned(),
            download_url: String::from_str("https://www.opensubtitles.com/en/subtitles/").concat(
                slug,
            ),
            file_id: replace_char(written.as_str(), '"', ""),
        },
    )
}

/// Reads the subtitles out of a search answer.
///
/// Fails exactly when the answer has no list `data`. Entries of the list
/// that lack a part are passed over; the others come out in their order.
pub fn search_results(answer: &Value) -> (outcome: Result<Vec<SubtitleSearchResult>, AnswerError>)
    ensures
        match outcome {
            Ok(results) => data_of(*answer) is Some && result_views(results@) == search_results_of(
                data_of(*answer).unwrap(),
            ),
            Err(AnswerError::MissingData) => data_of(*answer) is None,
            Err(AnswerError::NotJson(_)) => false,
            Err(AnswerError::MissingLink) => false,
        },
{
    let entries = match member(answer, "data") {
        Some(data) => match elements(data) {
            Some(entries) => entries,
            None => {
                return Err(AnswerError::MissingData);
            },
        },
        None => {
            return Err(AnswerError::MissingData);
        },
    };
    let mut results: Vec<SubtitleSearchResult> = Vec::new();
    let mut i: usize = 0;
    while i < entries.len()
        invariant
            i <= entries.len(),
            data_of(*answer) == Some(entries@),
            result_views(results@) == search_results_of(entries@.take(i as int)),
        decreases entries.len() - i,
    {
        let ghost before = result_views(results@);
        proof {
            assert(entries@.take(i + 1).drop_last() =~= entries@.take(i as int));
        }
        match search_result(&entries[i]) {
            Some(result) => {
                results.push(result);
                assert(result_views(results@) =~= before.push(result@));
            },
            None => {},
        }
        i = i + 1;
    }
    assert(entries@.take(i as int) =~= entries@);
    Ok(results)
}

/// Reads the link out of the answer to a download request.
///
/// Fails with [`AnswerError::NotJson`] exactly when the answer is not JSON,
/// and with [`AnswerError::MissingLink`] exactly when it is JSON without a
/// string member `link`.
pub fn download_link(answer: &str) -> (outcome: Result<String, AnswerError>)
    ensures
        match outcome {
            Ok(link) => parsed_json(answer@) is Some && text_member_of(
                parsed_json(answer@).unwrap(),
                "link"@,
            ) == Some(link@),
            Err(AnswerError::NotJson(_)) => parsed_json(answer@) is None,
            Err(AnswerError::MissingLink) => parsed_json(answer@) is Some && text_member_of(
                parsed_json(answer@).unwrap(),
                "link"@,
            ) is None,
            Err(AnswerError::MissingData) => false,
        },
{
    let root = match parse_json(answer) {
        Ok(root) => root,
        Err(error) => {
            return Err(AnswerError::NotJson(error));
        },
    };
    match text_member(&root, "link") {
        Some(link) => Ok(link.to_owned()),
        None => Err(AnswerError::MissingLink),
    }
}

} // verus!
