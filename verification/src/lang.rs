use vstd::prelude::*;
use crate::error::ErrorKind;
use crate::json::{
    empty_object, mark_present, object_keys, object_value, object_words, present_words,
    value_keys,
};

verus! {

/// The closed set of languages that can be segmented.
#[derive(Clone, Copy, Debug, PartialEq, Eq, Structural)]
pub enum Language {
    English,
    Chinese,
}

/// The code of the whitespace-delimited language.
pub open spec fn english_code() -> Seq<char> {
    seq!['e', 'n']
}

/// The code of the language segmented by dictionary.
pub open spec fn chinese_code() -> Seq<char> {
    seq!['z', 'h']
}

/// The language that a code stands for, if any.
pub open spec fn language_of(code: Seq<char>) -> Option<Language> {
    if code == english_code() {
        Some(Language::English)
    } else if code == chinese_code() {
        Some(Language::Chinese)
    } else {
        None
    }
}

/// The tokens between the Unicode word boundaries of a text.
pub uninterp spec fn word_bound_tokens(text: Seq<char>) -> Seq<Seq<char>>;

/// The character sequences of a run of string slices.
pub open spec fn token_views(words: Seq<&str>) -> Seq<Seq<char>> {
    words.map_values(|w: &str| w@)
}

/// Reads a language code. Only the exact codes are accepted.
pub fn parse_language(code: &str) -> (language: Option<Language>)
    ensures
        language == language_of(code@),
{
    if code.unicode_len() != 2 {
        return None;
    }
    let first = code.get_char(0);
    let second = code.get_char(1);
    if first == 'e' && second == 'n' {
        assert(code@ =~= english_code());
        Some(Language::English)
    } else if first == 'z' && second == 'h' {
        assert(code@ =~= chinese_code());
        Some(Language::Chinese)
    } else {
        None
    }
}

/// Calls `UnicodeSegmentation::split_word_bounds` of unicode-segmentation and
/// collects what it yields. The tokens are a function of the text, and, as
/// that crate documents, joined together they give the text back.
#[verifier::external_body]
fn get_words_english<'a>(text: &'a str) -> (words: Vec<&'a str>)
    ensures
        token_views(words@) == word_bound_tokens(text@),
        token_views(words@).flatten() == text@,
{
    unicode_segmentation::UnicodeSegmentation::split_word_bounds(text).collect()
}

/// The segmentation model of jieba-rs: a dictionary of words with their
/// frequencies.
#[verifier::external_type_specification]
#[verifier::external_body]
pub struct ExDictionary(jieba_rs::Jieba);

/// Calls `Jieba::new` of jieba-rs, which loads the dictionary that the crate
/// embeds. Nothing is claimed of what it holds.
#[verifier::external_body]
fn load_dictionary() -> (dictionary: jieba_rs::Jieba) {
    jieba_rs::Jieba::new()
}

/// Calls `Jieba::cut` of jieba-rs without the hidden Markov model and keeps
/// each token's word. Whatever the dictionary holds, the words are
/// consecutive slices of the text that start at its first byte and end at
/// its last. Which slices they are is left open: the route through the text
/// is chosen by floating-point weights.
#[verifier::external_body]
fn get_words_chinese<'a>(dictionary: &jieba_rs::Jieba, text: &'a str) -> (words: Vec<&'a str>)
    ensures
        token_views(words@).flatten() == text@,
{
    dictionary.cut(text, false).into_iter().map(|token| token.word).collect()
}

/// What a segmentation must be: the tokens joined together are the text,
/// and for the whitespace-delimited language they are the tokens between the
/// Unicode word boundaries.
pub open spec fn segments(tokens: Seq<Seq<char>>, text: Seq<char>, language: Language) -> bool {
    &&& tokens.flatten() == text
    &&& language == Language::English ==> tokens == word_bound_tokens(text)
}

/// A segmenter with its dictionary loaded. Loading is the costly part: make
/// one and share it, it is never changed afterwards.
pub struct Segmenter {
    dictionary: jieba_rs::Jieba,
}

impl Segmenter {
    /// Loads the dictionary that jieba-rs embeds. Nothing is promised of what
    /// the dictionary holds: its weights are logarithms taken while loading,
    /// and what `segment` promises holds of every dictionary.
    pub fn new() -> (segmenter: Segmenter) {
        Segmenter { dictionary: load_dictionary() }
    }

    /// Cuts a text into tokens by the rules of a language.
    pub fn segment<'a>(&self, text: &'a str, language: Language) -> (words: Vec<&'a str>)
        ensures
            segments(token_views(words@), text@, language),
    {
        match language {
            Language::English => get_words_english(text),
            Language::Chinese => get_words_chinese(&self.dictionary, text),
        }
    }

    /// Cuts a text into tokens by the rules of the language that `lang`
    /// names, as the free function `get_words` does, with the dictionary
    /// that is already loaded.
    pub fn get_words<'a>(&self, text: &'a str, lang: &str) -> (result: Result<
        Vec<&'a str>,
        ErrorKind,
    >)
        ensures
            match result {
                Ok(words) => language_of(lang@) is Some && segments(
                    token_views(words@),
                    text@,
                    language_of(lang@).unwrap(),
                ),
                Err(kind) => language_of(lang@) is None && kind == ErrorKind::UnsupportedLanguage,
            },
    {
        match parse_language(lang) {
            Some(language) => Ok(self.segment(text, language)),
            None => Err(ErrorKind::UnsupportedLanguage),
        }
    }
}

/// Cuts a text into tokens by the rules of the language that `lang` names.
/// Word, punctuation and whitespace tokens are all kept, so that the tokens
/// joined together are the text. A code that names no supported language is
/// refused. The dictionary is loaded on each call that needs it; a
/// `Segmenter` loads it once.
pub fn get_words<'a>(text: &'a str, lang: &str) -> (result: Result<Vec<&'a str>, ErrorKind>)
    ensures
        match result {
            Ok(words) => language_of(lang@) is Some && segments(
                token_views(words@),
                text@,
                language_of(lang@).unwrap(),
            ),
            Err(kind) => language_of(lang@) is None && kind == ErrorKind::UnsupportedLanguage,
        },
{
    match parse_language(lang) {
        Some(Language::English) => Ok(get_words_english(text)),
        Some(Language::Chinese) => {
            let dictionary = load_dictionary();
            Ok(get_words_chinese(&dictionary, text))
        },
        None => Err(ErrorKind::UnsupportedLanguage),
    }
}

/// The locale-independent lower-case form of a word.
pub uninterp spec fn lowercase_of(word: Seq<char>) -> Seq<char>;

/// Whether a character is a letter or a number.
pub uninterp spec fn alphanumeric(c: char) -> bool;

/// A token is word-like when at least one of its characters is a letter or a
/// number. Runs of punctuation or whitespace are not.
pub open spec fn word_like(token: Seq<char>) -> bool {
    exists|i: int| 0 <= i < token.len() && alphanumeric(#[trigger] token[i])
}

/// The lower-case forms of the word-like tokens, each once.
pub open spec fn unique_word_set(tokens: Seq<Seq<char>>) -> Set<Seq<char>> {
    Set::new(
        |w: Seq<char>|
            exists|i: int|
                0 <= i < tokens.len() && word_like(#[trigger] tokens[i]) && w == lowercase_of(
                    tokens[i],
                ),
    )
}

/// Calls `str::to_lowercase`, whose result depends on the word alone.
#[verifier::external_body]
pub(crate) fn lowercase(word: &str) -> (lower: String)
    ensures
        lower@ == lowercase_of(word@),
{
    word.to_lowercase()
}

/// Calls `char::is_alphanumeric`, whose result depends on the character alone.
#[verifier::external_body]
fn is_alphanumeric(c: char) -> (yes: bool)
    ensures
        yes == alphanumeric(c),
{
    c.is_alphanumeric()
}

/// Whether a token holds a letter or a number.
pub fn is_word_like(token: &str) -> (yes: bool)
    ensures
        yes == word_like(token@),
{
    let n: usize = token.unicode_len();
    let mut i: usize = 0;
    while i < n
        invariant
            n == token@.len(),
            i <= n,
            forall|j: int| 0 <= j < i ==> !alphanumeric(#[trigger] token@[j]),
        decreases n - i,
    {
        if is_alphanumeric(token.get_char(i)) {
            return true;
        }
        i = i + 1;
    }
    false
}

/// The value is the unique-word index of the tokens: an object whose keys
/// are the lower-case forms of the word-like tokens and no others, each with
/// the value `true`.
pub open spec fn unique_words_of(value: serde_json::Value, tokens: Seq<Seq<char>>) -> bool {
    &&& value_keys(value) == unique_word_set(tokens)
    &&& present_words(value) == unique_word_set(tokens)
}

/// One more token adds its lower-case form to the set if it is word-like, and
/// nothing otherwise.
pub proof fn lemma_unique_words_push(tokens: Seq<Seq<char>>, token: Seq<char>)
    ensures
        unique_word_set(tokens.push(token)) == if word_like(token) {
            unique_word_set(tokens).insert(lowercase_of(token))
        } else {
            unique_word_set(tokens)
        },
{
    let more = tokens.push(token);
    let expected = if word_like(token) {
        unique_word_set(tokens).insert(lowercase_of(token))
    } else {
        unique_word_set(tokens)
    };
    assert forall|w: Seq<char>| unique_word_set(more).contains(w) implies expected.contains(w) by {
        let i = choose|i: int|
            0 <= i < more.len() && word_like(#[trigger] more[i]) && w == lowercase_of(more[i]);
        if i < tokens.len() {
            assert(more[i] == tokens[i]);
        }
    }
    assert forall|w: Seq<char>| expected.contains(w) implies unique_word_set(more).contains(w) by {
        if unique_word_set(tokens).contains(w) {
            let i = choose|i: int|
                0 <= i < tokens.len() && word_like(#[trigger] tokens[i]) && w == lowercase_of(
                    tokens[i],
                );
            assert(more[i] == tokens[i]);
        } else {
            assert(more[tokens.len() as int] == token);
        }
    }
    assert(unique_word_set(more) =~= expected);
}

/// The unique-word set records which tokens occur, not where or how often:
/// two token sequences with the same tokens, in any order and any number,
/// have the same set.
pub proof fn lemma_unique_words_ignore_order(first: Seq<Seq<char>>, second: Seq<Seq<char>>)
    requires
        forall|token: Seq<char>| first.contains(token) <==> second.contains(token),
    ensures
        unique_word_set(first) == unique_word_set(second),
{
    assert forall|w: Seq<char>| unique_word_set(first).contains(w) implies unique_word_set(
        second,
    ).contains(w) by {
        let i = choose|i: int|
            0 <= i < first.len() && word_like(#[trigger] first[i]) && w == lowercase_of(first[i]);
        assert(first.contains(first[i]));
        let j = choose|j: int| 0 <= j < second.len() && second[j] == first[i];
        assert(word_like(second[j]));
    }
    assert forall|w: Seq<char>| unique_word_set(second).contains(w) implies unique_word_set(
        first,
    ).contains(w) by {
        let i = choose|i: int|
            0 <= i < second.len() && word_like(#[trigger] second[i]) && w == lowercase_of(
                second[i],
            );
        assert(second.contains(second[i]));
        let j = choose|j: int| 0 <= j < first.len() && first[j] == second[i];
        assert(word_like(first[j]));
    }
    assert(unique_word_set(first) =~= unique_word_set(second));
}

/// The unique-word index of a token sequence: a JSON object in which each
/// word-like token's lower-case form is a key with the value `true`. How
/// often a word occurs leaves no trace, and tokens without a letter or a
/// number are left out.
pub fn get_unique_words(words: &Vec<&str>) -> (unique_words: serde_json::Value)
    ensures
        unique_words_of(unique_words, token_views(words@)),
{
    let mut object = empty_object();
    let mut i: usize = 0;
    assert(unique_word_set(token_views(words@).take(0)) =~= Set::<Seq<char>>::empty());
    while i < words.len()
        invariant
            i <= words.len(),
            object_keys(object) == unique_word_set(token_views(words@).take(i as int)),
            object_words(object) == unique_word_set(token_views(words@).take(i as int)),
        decreases words.len() - i,
    {
        let word: &str = words[i];
        proof {
            let tokens = token_views(words@);
            assert(tokens.take(i + 1) =~= tokens.take(i as int).push(word@));
            lemma_unique_words_push(tokens.take(i as int), word@);
        }
        if is_word_like(word) {
            mark_present(&mut object, lowercase(word));
        }
        i = i + 1;
    }
    assert(token_views(words@).take(i as int) =~= token_views(words@));
    object_value(object)
}

} // verus!
