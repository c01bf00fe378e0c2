use reading_core::models::UserWordData;
use reading_core::vocabulary::{
    batch_update_word_status, parse_status, status_name, update_word_definition,
    update_word_status, WordStatus,
};
use serde_json::Value;

fn text(value: &str) -> Value {
    Value::String(value.to_string())
}

#[test]
fn batch_update_collapses_case_variants() {
    let mut data = UserWordData::empty();
    let words = vec!["Cat".to_string(), "cat".to_string(), "DOG".to_string()];
    batch_update_word_status(&mut data, &words, parse_status("known").unwrap());
    assert_eq!(data.word_status_data.len(), 2);
    assert_eq!(data.word_status_data.get("cat"), Some(&text("known")));
    assert_eq!(data.word_status_data.get("dog"), Some(&text("known")));
    assert!(data.word_definition_data.is_empty());
}

#[test]
fn empty_record_has_no_entries() {
    let data = UserWordData::empty();
    assert!(data.word_status_data.is_empty());
    assert!(data.word_definition_data.is_empty());
}

#[test]
fn batch_update_keeps_other_words() {
    let mut data = UserWordData::empty();
    update_word_status(&mut data, "Bird", WordStatus::Learning);
    update_word_status(&mut data, "cat", WordStatus::Unknown);
    batch_update_word_status(&mut data, &vec!["CAT".to_string()], WordStatus::Known);
    assert_eq!(data.word_status_data.len(), 2);
    assert_eq!(data.word_status_data.get("bird"), Some(&text("learning")));
    assert_eq!(data.word_status_data.get("cat"), Some(&text("known")));
}

#[test]
fn batch_update_of_no_words_changes_nothing() {
    let mut data = UserWordData::empty();
    update_word_status(&mut data, "cat", WordStatus::Unknown);
    batch_update_word_status(&mut data, &Vec::new(), WordStatus::Known);
    assert_eq!(data.word_status_data.len(), 1);
    assert_eq!(data.word_status_data.get("cat"), Some(&text("unknown")));
}

#[test]
fn status_update_overwrites_under_the_folded_key() {
    let mut data = UserWordData::empty();
    update_word_status(&mut data, "Haus", WordStatus::Unknown);
    update_word_status(&mut data, "HAUS", WordStatus::Learning);
    assert_eq!(data.word_status_data.len(), 1);
    assert_eq!(data.word_status_data.get("haus"), Some(&text("learning")));
    assert_eq!(data.word_status_data.get("Haus"), None);
}

#[test]
fn definitions_are_kept_apart_from_statuses() {
    let mut data = UserWordData::empty();
    update_word_definition(&mut data, "Cat", "a small animal");
    update_word_status(&mut data, "dog", WordStatus::Known);
    update_word_definition(&mut data, "CAT", "A Small Animal");
    assert_eq!(data.word_definition_data.len(), 1);
    assert_eq!(data.word_definition_data.get("cat"), Some(&text("A Small Animal")));
    assert_eq!(data.word_status_data.len(), 1);
    assert_eq!(data.word_status_data.get("dog"), Some(&text("known")));
}

#[test]
fn status_names() {
    assert_eq!(status_name(WordStatus::Unknown), "unknown");
    assert_eq!(status_name(WordStatus::Learning), "learning");
    assert_eq!(status_name(WordStatus::Known), "known");
    assert_eq!(parse_status("unknown"), Some(WordStatus::Unknown));
    assert_eq!(parse_status("learning"), Some(WordStatus::Learning));
    assert_eq!(parse_status("known"), Some(WordStatus::Known));
    assert_eq!(parse_status("Known"), None);
    assert_eq!(parse_status(""), None);
    assert_eq!(parse_status("mastered"), None);
}
