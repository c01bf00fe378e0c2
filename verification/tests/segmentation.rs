use reading_core::error::ErrorKind;
use reading_core::lang::{
    get_unique_words, get_words, is_word_like, parse_language, Language, Segmenter,
};

fn object_keys(value: &serde_json::Value) -> Vec<String> {
    let mut keys: Vec<String> = value.as_object().unwrap().keys().cloned().collect();
    keys.sort();
    keys
}

#[test]
fn english_example_tokens() {
    let words = get_words("Hello, world!", "en").unwrap();
    assert_eq!(words, vec!["Hello", ",", " ", "world", "!"]);
}

#[test]
fn english_example_unique_words() {
    let words = get_words("Hello, world!", "en").unwrap();
    let unique = get_unique_words(&words);
    assert_eq!(object_keys(&unique), vec!["hello".to_string(), "world".to_string()]);
    assert_eq!(unique["hello"], serde_json::Value::Bool(true));
    assert_eq!(unique["world"], serde_json::Value::Bool(true));
}

#[test]
fn english_segmentation_is_lossless() {
    let texts = [
        "",
        " ",
        "The quick (\"brown\") fox can't jump 32.3 feet, right?",
        "tabs\tand\r\nnewlines  and   runs",
        "na\u{ef}ve caf\u{e9} \u{1f600} done.",
    ];
    for text in texts {
        let words = get_words(text, "en").unwrap();
        assert_eq!(words.concat(), text);
    }
}

#[test]
fn english_keeps_punctuation_and_whitespace_tokens() {
    let words = get_words("a  b.", "en").unwrap();
    assert_eq!(words.first(), Some(&"a"));
    assert_eq!(words.last(), Some(&"."));
    assert!(words.len() > 2);
    assert_eq!(words.concat(), "a  b.");
}

#[test]
fn chinese_example_tokens() {
    let words = get_words("\u{6211}\u{4eec}\u{4e2d}\u{51fa}\u{4e86}\u{4e00}\u{4e2a}\u{53db}\u{5f92}", "zh").unwrap();
    assert_eq!(
        words,
        vec![
            "\u{6211}\u{4eec}",
            "\u{4e2d}",
            "\u{51fa}",
            "\u{4e86}",
            "\u{4e00}\u{4e2a}",
            "\u{53db}\u{5f92}"
        ]
    );
}

#[test]
fn chinese_segmentation_is_lossless() {
    let texts = [
        "",
        "\u{6211}\u{4eec}\u{4e2d}\u{51fa}\u{4e86}\u{4e00}\u{4e2a}\u{53db}\u{5f92}\u{3002}",
        "\u{4eca}\u{5929} is sunny, 25 \u{5ea6}\u{ff01}\r\n\u{597d}",
    ];
    for text in texts {
        let words = get_words(text, "zh").unwrap();
        assert_eq!(words.concat(), text);
    }
}

#[test]
fn segmenter_agrees_with_get_words() {
    let segmenter = Segmenter::new();
    let text = "One two. Three!";
    assert_eq!(segmenter.segment(text, Language::English), get_words(text, "en").unwrap());
    assert_eq!(segmenter.get_words(text, "en"), get_words(text, "en"));
    let han = "\u{4e00}\u{4e2a}\u{53db}\u{5f92}";
    assert_eq!(segmenter.segment(han, Language::Chinese), vec!["\u{4e00}\u{4e2a}", "\u{53db}\u{5f92}"]);
    assert_eq!(segmenter.get_words(han, "zh"), get_words(han, "zh"));
    assert_eq!(segmenter.get_words(han, "ja"), Err(ErrorKind::UnsupportedLanguage));
}

#[test]
fn one_segmenter_serves_many_texts() {
    let segmenter = Segmenter::new();
    for text in ["", "\u{6211}\u{4eec}", "mixed \u{4e2d}\u{6587} text.", "a\r\nb"] {
        assert_eq!(segmenter.segment(text, Language::Chinese).concat(), text);
        assert_eq!(segmenter.segment(text, Language::English).concat(), text);
    }
}

#[test]
fn unsupported_language_is_refused() {
    assert_eq!(get_words("Bonjour", "fr"), Err(ErrorKind::UnsupportedLanguage));
    assert_eq!(get_words("Hello", ""), Err(ErrorKind::UnsupportedLanguage));
    assert_eq!(get_words("Hello", "EN"), Err(ErrorKind::UnsupportedLanguage));
    assert_eq!(get_words("Hello", "eng"), Err(ErrorKind::UnsupportedLanguage));
}

#[test]
fn language_codes() {
    assert_eq!(parse_language("en"), Some(Language::English));
    assert_eq!(parse_language("zh"), Some(Language::Chinese));
    assert_eq!(parse_language("e"), None);
    assert_eq!(parse_language("zn"), None);
}

#[test]
fn word_likeness() {
    assert!(is_word_like("Hello"));
    assert!(is_word_like("32.3"));
    assert!(is_word_like("\u{53db}\u{5f92}"));
    assert!(is_word_like("-a"));
    assert!(!is_word_like(""));
    assert!(!is_word_like(" "));
    assert!(!is_word_like(","));
    assert!(!is_word_like("\u{3002}"));
}

#[test]
fn unique_words_fold_case_and_forget_counts() {
    let words = vec!["Cat", " ", "cat", " ", "CAT", ".", " ", "\u{c9}t\u{e9}"];
    let unique = get_unique_words(&words);
    assert_eq!(object_keys(&unique), vec!["cat".to_string(), "\u{e9}t\u{e9}".to_string()]);
    assert_eq!(unique["cat"], serde_json::Value::Bool(true));
}

#[test]
fn unique_words_of_nothing() {
    let words: Vec<&str> = Vec::new();
    let unique = get_unique_words(&words);
    assert_eq!(unique, serde_json::Value::Object(serde_json::Map::new()));
}

#[test]
fn unique_words_do_not_depend_on_order_or_repetition() {
    let first = vec!["b", " ", "A", "!", "a"];
    let second = vec!["a", "A", "!", " ", "b", "b", " "];
    assert_eq!(get_unique_words(&first), get_unique_words(&second));
    assert_eq!(get_unique_words(&first), get_unique_words(&first));
}
