use eplayer::opensubtitles::{
    download_link, search_result, search_results, AnswerError, SubtitleSearchResult,
};

fn parse_search_answer(answer: &str) -> Result<Vec<SubtitleSearchResult>, AnswerError> {
    search_results(&serde_json::from_str(answer).unwrap())
}

fn found(file_name: &str, language: &str, slug: &str, file_id: &str) -> SubtitleSearchResult {
    SubtitleSearchResult {
        file_name: file_name.to_string(),
        language: language.to_string(),
        download_url: format!("https://www.opensubtitles.com/en/subtitles/{}", slug),
        file_id: file_id.to_string(),
    }
}

fn entry(release: &str, language: &str, slug: &str, file_id: &str) -> String {
    format!(
        r#"{{"id":"1","attributes":{{"release":"{}","language":"{}","slug":"{}","files":[{{"file_id":{},"cd_number":1}},{{"file_id":0}}]}}}}"#,
        release, language, slug, file_id
    )
}

#[test]
fn entries_are_read_in_order() {
    let answer = format!(
        r#"{{"total_count":2,"data":[{},{}]}}"#,
        entry("Film.2020.1080p", "en", "1-film", "4711"),
        entry("Film.2020.720p", "zh", "2-film", "4712")
    );
    assert_eq!(
        parse_search_answer(&answer).unwrap(),
        vec![
            found("Film.2020.1080p", "en", "1-film", "4711"),
            found("Film.2020.720p", "zh", "2-film", "4712"),
        ]
    );
}

#[test]
fn file_id_loses_its_quotes() {
    let answer = format!(r#"{{"data":[{}]}}"#, entry("r", "en", "s", r#""abc""#));
    assert_eq!(parse_search_answer(&answer).unwrap(), vec![found("r", "en", "s", "abc")]);
    let answer = format!(r#"{{"data":[{}]}}"#, entry("r", "en", "s", r#"{"a":"b"}"#));
    assert_eq!(parse_search_answer(&answer).unwrap(), vec![found("r", "en", "s", "{a:b}")]);
    let answer = format!(r#"{{"data":[{}]}}"#, entry("r", "en", "s", "null"));
    assert_eq!(parse_search_answer(&answer).unwrap(), vec![found("r", "en", "s", "null")]);
}

#[test]
fn incomplete_entries_are_passed_over() {
    let complete = entry("kept", "en", "slug", "7");
    let incomplete = [
        r#"{}"#,
        r#"7"#,
        r#"{"attributes":{}}"#,
        r#"{"attributes":{"release":"r","language":"en","slug":"s"}}"#,
        r#"{"attributes":{"release":"r","language":"en","slug":"s","files":[]}}"#,
        r#"{"attributes":{"release":"r","language":"en","slug":"s","files":{}}}"#,
        r#"{"attributes":{"release":"r","language":"en","slug":"s","files":[{}]}}"#,
        r#"{"attributes":{"language":"en","slug":"s","files":[{"file_id":1}]}}"#,
        r#"{"attributes":{"release":"r","slug":"s","files":[{"file_id":1}]}}"#,
        r#"{"attributes":{"release":"r","language":"en","files":[{"file_id":1}]}}"#,
        r#"{"attributes":{"release":1,"language":"en","slug":"s","files":[{"file_id":1}]}}"#,
        r#"{"attributes":{"release":"r","language":null,"slug":"s","files":[{"file_id":1}]}}"#,
    ];
    for broken in incomplete {
        let answer = format!(r#"{{"data":[{},{}]}}"#, broken, complete);
        assert_eq!(
            parse_search_answer(&answer).unwrap(),
            vec![found("kept", "en", "slug", "7")],
            "{}",
            broken
        );
        let value = serde_json::from_str(broken).unwrap();
        assert_eq!(search_result(&value), None, "{}", broken);
    }
}

#[test]
fn empty_data_is_no_error() {
    assert_eq!(parse_search_answer(r#"{"data":[]}"#).unwrap(), Vec::new());
}

#[test]
fn answer_without_data_is_refused() {
    for answer in [r#"{}"#, r#"[]"#, r#"{"data":null}"#, r#"{"data":{"0":1}}"#, r#"{"Data":[]}"#] {
        assert!(matches!(parse_search_answer(answer), Err(AnswerError::MissingData)), "{}", answer);
        let value = serde_json::from_str(answer).unwrap();
        assert!(matches!(search_results(&value), Err(AnswerError::MissingData)), "{}", answer);
    }
}

#[test]
fn link_is_read() {
    let answer = r#"{"link":"https://dl.example.org/file.srt","remaining":4}"#;
    assert_eq!(download_link(answer).unwrap(), "https://dl.example.org/file.srt");
    assert_eq!(download_link(r#"{"link":""}"#).unwrap(), "");
}

#[test]
fn answer_without_link_is_refused() {
    for answer in [r#"{}"#, r#"{"link":null}"#, r#"{"link":7}"#, r#"["link"]"#, r#""link""#] {
        assert!(matches!(download_link(answer), Err(AnswerError::MissingLink)), "{}", answer);
    }
}

#[test]
fn download_answer_must_be_json() {
    assert!(matches!(download_link("Too Many Requests"), Err(AnswerError::NotJson(_))));
}
