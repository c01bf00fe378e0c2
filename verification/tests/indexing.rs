use reading_core::index::{build_index, is_sentence_final, paginate, split_sentences, TokenRange};
use reading_core::lang::get_words;

fn range(start: usize, end: usize) -> TokenRange {
    TokenRange { start, end }
}

#[test]
fn english_example_is_one_sentence() {
    let words = get_words("Hello, world!", "en").unwrap();
    assert_eq!(split_sentences(&words), vec![range(0, 5)]);
}

#[test]
fn sentences_end_after_terminal_tokens() {
    let words = vec!["Hi", ".", " ", "How", " ", "are", " ", "you", "?", " ", "Fine"];
    assert_eq!(split_sentences(&words), vec![range(0, 2), range(2, 9), range(9, 11)]);
}

#[test]
fn trailing_run_forms_a_sentence() {
    let words = vec!["no", " ", "full", " ", "stop"];
    assert_eq!(split_sentences(&words), vec![range(0, 5)]);
}

#[test]
fn no_tokens_no_sentences() {
    let words: Vec<&str> = Vec::new();
    assert_eq!(split_sentences(&words), Vec::<TokenRange>::new());
}

#[test]
fn consecutive_terminals_each_end_a_sentence() {
    let words = vec!["What", "?", "!"];
    assert_eq!(split_sentences(&words), vec![range(0, 2), range(2, 3)]);
}

#[test]
fn full_width_terminals_end_sentences() {
    let words = vec!["\u{597d}", "\u{3002}", "\u{884c}", "\u{ff01}", "\u{5417}", "\u{ff1f}"];
    assert_eq!(split_sentences(&words), vec![range(0, 2), range(2, 4), range(4, 6)]);
}

#[test]
fn sentence_final_tokens() {
    for token in [".", "!", "?", "\u{3002}", "\u{ff01}", "\u{ff1f}"] {
        assert!(is_sentence_final(token));
    }
    for token in ["", ",", "..", "a", " ", "?!", ";"] {
        assert!(!is_sentence_final(token));
    }
}

#[test]
fn sentences_cover_every_token_once() {
    let words = get_words("One. Two three! Four? five", "en").unwrap();
    let sentences = split_sentences(&words);
    let mut next = 0;
    for sentence in &sentences {
        assert_eq!(sentence.start, next);
        assert!(sentence.start < sentence.end);
        next = sentence.end;
    }
    assert_eq!(next, words.len());
    assert_eq!(sentences.len(), 4);
}

#[test]
fn pages_with_a_short_last_page() {
    assert_eq!(paginate(10, 3), vec![range(0, 3), range(3, 6), range(6, 9), range(9, 10)]);
}

#[test]
fn pages_that_divide_evenly() {
    assert_eq!(paginate(6, 3), vec![range(0, 3), range(3, 6)]);
}

#[test]
fn no_tokens_no_pages() {
    assert_eq!(paginate(0, 5), Vec::<TokenRange>::new());
}

#[test]
fn one_short_page() {
    assert_eq!(paginate(2, 5), vec![range(0, 2)]);
    assert_eq!(paginate(1, 1), vec![range(0, 1)]);
}

#[test]
fn page_count_is_the_ceiling() {
    for size in 1..8usize {
        for count in 0..40usize {
            let pages = paginate(count, size);
            assert_eq!(pages.len(), (count + size - 1) / size);
            for (i, page) in pages.iter().enumerate() {
                assert_eq!(page.start, i * size);
                if i + 1 < pages.len() {
                    assert_eq!(page.end - page.start, size);
                } else {
                    assert_eq!(page.end, count);
                    assert!(page.start < page.end);
                }
            }
        }
    }
}

#[test]
fn pages_near_the_largest_count() {
    let pages = paginate(usize::MAX, usize::MAX - 1);
    assert_eq!(pages, vec![range(0, usize::MAX - 1), range(usize::MAX - 1, usize::MAX)]);
}

#[test]
fn index_of_the_english_example() {
    let words = get_words("Hello, world!", "en").unwrap();
    let index = build_index(&words, 3);
    assert_eq!(index.sentences, vec![range(0, 5)]);
    assert_eq!(index.pages, vec![range(0, 3), range(3, 5)]);
    let unique = index.unique_words.as_object().unwrap();
    assert_eq!(unique.len(), 2);
    assert_eq!(unique.get("hello"), Some(&serde_json::Value::Bool(true)));
    assert_eq!(unique.get("world"), Some(&serde_json::Value::Bool(true)));
}

#[test]
fn index_of_no_tokens_is_empty() {
    let words: Vec<&str> = Vec::new();
    let index = build_index(&words, 4);
    assert!(index.sentences.is_empty());
    assert!(index.pages.is_empty());
    assert!(index.unique_words.as_object().unwrap().is_empty());
}

#[test]
fn indexing_twice_gives_the_same_index() {
    let words = get_words("The cat saw the Cat. THE END", "en").unwrap();
    let first = build_index(&words, 4);
    let second = build_index(&words, 4);
    assert_eq!(first.sentences, second.sentences);
    assert_eq!(first.pages, second.pages);
    assert_eq!(first.unique_words, second.unique_words);
    let mut keys: Vec<&String> = first.unique_words.as_object().unwrap().keys().collect();
    keys.sort();
    assert_eq!(keys, vec!["cat", "end", "saw", "the"]);
}
