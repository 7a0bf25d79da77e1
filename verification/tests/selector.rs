use eplayer::error::CaptionError;
use eplayer::language::{
    candidate_tracks, find_preferred_language, find_track, get_caption_language, language_matches,
    position_of_first, CaptionTrack,
};

fn tracks(languages: &[&str]) -> Vec<CaptionTrack> {
    languages
        .iter()
        .map(|l| CaptionTrack { language: l.to_string(), handle: format!("handle-{}", l) })
        .collect()
}

fn preferences(languages: &[&str]) -> Vec<String> {
    languages.iter().map(|l| l.to_string()).collect()
}

#[test]
fn second_preference_wins_when_the_first_has_no_track() {
    let chosen = get_caption_language(&preferences(&["en", "ja"]), &tracks(&["ja"]));
    assert_eq!(chosen, Ok("ja".to_string()));
}

#[test]
fn no_preference_matches() {
    let chosen = get_caption_language(&preferences(&["en", "ja"]), &tracks(&["fr"]));
    assert_eq!(chosen, Err(CaptionError::NoMatchingLanguage));
}

#[test]
fn earliest_preference_wins_whatever_the_order_of_tracks() {
    let wanted = preferences(&["en", "zh-TW", "ja", "zh-Hant", "ko", "zh", "es", "fr"]);
    assert_eq!(get_caption_language(&wanted, &tracks(&["fr", "ko", "ja"])), Ok("ja".to_string()));
    assert_eq!(get_caption_language(&wanted, &tracks(&["ja", "ko", "fr"])), Ok("ja".to_string()));
    assert_eq!(get_caption_language(&wanted, &tracks(&["es", "en-GB"])), Ok("en".to_string()));
}

#[test]
fn nothing_to_choose_from() {
    assert_eq!(
        get_caption_language(&preferences(&["en"]), &tracks(&[])),
        Err(CaptionError::NoMatchingLanguage)
    );
    assert_eq!(
        get_caption_language(&preferences(&[]), &tracks(&["en"])),
        Err(CaptionError::NoMatchingLanguage)
    );
}

#[test]
fn bare_language_matches_its_scripts_and_regions() {
    assert!(language_matches("zh", "zh-Hans"));
    assert!(language_matches("zh", "zh-Hant"));
    assert!(language_matches("zh", "zh-TW"));
    assert!(language_matches("zh", "zh"));
    assert!(language_matches("en", "en-GB"));
    assert!(!language_matches("en", "fr"));
}

#[test]
fn qualified_preference_needs_its_qualifier() {
    assert!(language_matches("zh-TW", "zh-TW"));
    assert!(language_matches("zh-TW", "zh-Hant-TW"));
    assert!(!language_matches("zh-TW", "zh"));
    assert!(!language_matches("zh-TW", "zh-CN"));
    assert!(!language_matches("zh-Hant", "zh-Hans"));
    assert!(!language_matches("es-BR", "es"));
}

#[test]
fn matching_ignores_case() {
    assert!(language_matches("EN", "en-gb"));
    assert!(language_matches("zh-tw", "ZH-TW"));
}

#[test]
fn ill_formed_tags_match_nothing() {
    assert!(!language_matches("", "en"));
    assert!(!language_matches("en", ""));
    assert!(!language_matches("e", "e"));
    assert!(!language_matches("not a tag", "en"));
    assert!(!language_matches("en", "english language"));
}

#[test]
fn preference_with_private_use_or_extension_matches_nothing() {
    assert!(!language_matches("en-x-twain", "en"));
    assert!(!language_matches("en-x-twain", "en-x-twain"));
    assert!(!language_matches("de-u-co-phonebk", "de"));
    assert!(language_matches("en", "en-x-twain"));
}

#[test]
fn ill_formed_preference_is_passed_over() {
    let chosen = get_caption_language(&preferences(&["??", "en-x-a", "fr"]), &tracks(&["fr"]));
    assert_eq!(chosen, Ok("fr".to_string()));
}

#[test]
fn first_matching_track_is_found() {
    let offered = tracks(&["fr", "zh-Hans", "zh-Hant", "bogus tag"]);
    assert_eq!(find_track("zh", &offered), Some(1));
    assert_eq!(find_track("zh-Hant", &offered), Some(2));
    assert_eq!(find_track("fr", &offered), Some(0));
    assert_eq!(find_track("ja", &offered), None);
    assert_eq!(find_track("zh", &Vec::new()), None);
}

#[test]
fn chosen_language_has_a_track() {
    let wanted = preferences(&["ko", "zh", "en"]);
    let offered = tracks(&["en-US", "zh-Hans"]);
    let chosen = get_caption_language(&wanted, &offered).unwrap();
    assert_eq!(chosen, "zh");
    assert_eq!(find_track(&chosen, &offered), Some(1));
}

#[test]
fn first_well_formed_preference_is_found() {
    assert_eq!(find_preferred_language(&preferences(&["en", "ja"])), Some("en".to_string()));
    assert_eq!(find_preferred_language(&preferences(&["?", "", "zh-TW"])), Some("zh-TW".to_string()));
    assert_eq!(find_preferred_language(&preferences(&["?", ""])), None);
    assert_eq!(find_preferred_language(&preferences(&[])), None);
}

#[test]
fn text_outside_ascii_is_no_tag() {
    assert!(!language_matches("日本語", "ja"));
    assert!(!language_matches("ja", "日本語"));
    assert!(!language_matches("zh-中文", "zh"));
    assert_eq!(find_preferred_language(&preferences(&["日本語"])), None);
}

#[test]
fn first_set_flag_is_found() {
    assert_eq!(position_of_first(&vec![false, false, true, false, true]), Some(2));
    assert_eq!(position_of_first(&vec![true]), Some(0));
    assert_eq!(position_of_first(&vec![false, false]), None);
    assert_eq!(position_of_first(&Vec::<bool>::new()), None);
}

#[test]
fn candidates_follow_the_preferences() {
    let wanted = preferences(&["en", "zh-TW", "ja", "zh-Hant", "ko", "zh", "es", "fr"]);
    let offered = tracks(&["fr", "zh-Hans", "en-GB", "ja", "en"]);
    assert_eq!(candidate_tracks(&wanted, &offered), vec![2, 3, 1, 0]);
}

#[test]
fn best_candidate_is_the_track_of_the_chosen_language() {
    let wanted = preferences(&["ko", "zh", "en"]);
    let offered = tracks(&["en-US", "zh-Hans", "zh-Hant"]);
    let plan = candidate_tracks(&wanted, &offered);
    let chosen = get_caption_language(&wanted, &offered).unwrap();
    assert_eq!(plan, vec![1, 0]);
    assert_eq!(Some(plan[0]), find_track(&chosen, &offered));
}

#[test]
fn no_candidates_without_a_match() {
    assert_eq!(candidate_tracks(&preferences(&["en", "ja"]), &tracks(&["fr"])), Vec::<usize>::new());
    assert_eq!(candidate_tracks(&preferences(&[]), &tracks(&["fr"])), Vec::<usize>::new());
    assert_eq!(candidate_tracks(&preferences(&["en"]), &tracks(&[])), Vec::<usize>::new());
}

#[test]
fn repeated_preference_is_a_candidate_each_time() {
    let plan = candidate_tracks(&preferences(&["en", "en"]), &tracks(&["en"]));
    assert_eq!(plan, vec![0, 0]);
}
