use vstd::prelude::*;
use crate::article::string_views;
use crate::json::{empty_object, no_texts, object_texts, set_text};
use crate::lang::{lowercase, lowercase_of};
use crate::models::UserWordData;

verus! {

/// How well a user knows a word. A word without a status was never seen.
#[derive(Clone, Copy, Debug, PartialEq, Eq, Structural)]
pub enum WordStatus {
    Unknown,
    Learning,
    Known,
}

/// The name under which a status is stored.
pub open spec fn status_text(status: WordStatus) -> Seq<char> {
    match status {
        WordStatus::Unknown => "unknown"@,
        WordStatus::Learning => "learning"@,
        WordStatus::Known => "known"@,
    }
}

/// The status that a name stands for, if any.
pub open spec fn status_of(text: Seq<char>) -> Option<WordStatus> {
    if text == "unknown"@ {
        Some(WordStatus::Unknown)
    } else if text == "learning"@ {
        Some(WordStatus::Learning)
    } else if text == "known"@ {
        Some(WordStatus::Known)
    } else {
        None
    }
}

/// The name under which a status is stored.
pub fn status_name(status: WordStatus) -> (name: &'static str)
    ensures
        name@ == status_text(status),
{
    match status {
        WordStatus::Unknown => "unknown",
        WordStatus::Learning => "learning",
        WordStatus::Known => "known",
    }
}

/// Reads the name of a status. Only the exact names are accepted.
pub fn parse_status(text: &str) -> (status: Option<WordStatus>)
    ensures
        status == status_of(text@),
{
    let given: String = text.to_owned();
    if given == "unknown".to_owned() {
        Some(WordStatus::Unknown)
    } else if given == "learning".to_owned() {
        Some(WordStatus::Learning)
    } else if given == "known".to_owned() {
        Some(WordStatus::Known)
    } else {
        None
    }
}

/// The entries after every word of `words` has been given the value
/// `text` under its lower-case form. Words that differ only in case share
/// one entry; entries of other words stay.
pub open spec fn with_words(
    entries: Map<Seq<char>, Seq<char>>,
    words: Seq<Seq<char>>,
    text: Seq<char>,
) -> Map<Seq<char>, Seq<char>> {
    Map::new(
        |key: Seq<char>| entries.contains_key(key) || names_key(words, key),
        |key: Seq<char>|
            if names_key(words, key) {
                text
            } else {
                entries[key]
            },
    )
}

/// Whether the key is the lower-case form of one of the words.
pub open spec fn names_key(words: Seq<Seq<char>>, key: Seq<char>) -> bool {
    exists|i: int| 0 <= i < words.len() && lowercase_of(#[trigger] words[i]) == key
}

/// Giving one more word the value is an insertion under its lower-case form.
pub proof fn lemma_with_words_push(
    entries: Map<Seq<char>, Seq<char>>,
    words: Seq<Seq<char>>,
    word: Seq<char>,
    text: Seq<char>,
)
    ensures
        with_words(entries, words.push(word), text) == with_words(entries, words, text).insert(
            lowercase_of(word),
            text,
        ),
{
    let more = words.push(word);
    assert forall|key: Seq<char>| names_key(more, key) <==> (names_key(words, key) || key
        == lowercase_of(word)) by {
        if names_key(more, key) {
            let i = choose|i: int| 0 <= i < more.len() && lowercase_of(#[trigger] more[i]) == key;
            if i < words.len() {
                assert(more[i] == words[i]);
            }
        }
        if names_key(words, key) {
            let i = choose|i: int|
                0 <= i < words.len() && lowercase_of(#[trigger] words[i]) == key;
            assert(more[i] == words[i]);
        }
        if key == lowercase_of(word) {
            assert(more[words.len() as int] == word);
        }
    }
    assert(with_words(entries, more, text) =~= with_words(entries, words, text).insert(
        lowercase_of(word),
        text,
    ));
}

impl UserWordData {
    /// The status recorded for each word, by its stored name.
    pub open spec fn statuses(&self) -> Map<Seq<char>, Seq<char>> {
        object_texts(self.word_status_data)
    }

    /// The definition recorded for each word.
    pub open spec fn definitions(&self) -> Map<Seq<char>, Seq<char>> {
        object_texts(self.word_definition_data)
    }

    /// The record of a user who has not yet written anything.
    pub fn empty() -> (data: UserWordData)
        ensures
            data.statuses() == no_texts(),
            data.definitions() == no_texts(),
    {
        UserWordData { word_status_data: empty_object(), word_definition_data: empty_object() }
    }
}

/// Records the status of one word, under the word's lower-case form.
pub fn update_word_status(data: &mut UserWordData, word: &str, status: WordStatus)
    ensures
        final(data).statuses() == old(data).statuses().insert(
            lowercase_of(word@),
            status_text(status),
        ),
        final(data).word_definition_data == old(data).word_definition_data,
{
    set_text(&mut data.word_status_data, lowercase(word), status_name(status).to_owned());
}

/// Records one status for every word of a list, in one step: when the call
/// returns, every word of the list has the status. Words that differ only in
/// case share one entry.
pub fn batch_update_word_status(data: &mut UserWordData, words: &Vec<String>, status: WordStatus)
    ensures
        final(data).statuses() == with_words(
            old(data).statuses(),
            string_views(words@),
            status_text(status),
        ),
        final(data).word_definition_data == old(data).word_definition_data,
{
    let mut i: usize = 0;
    assert(with_words(
        old(data).statuses(),
        string_views(words@).take(0),
        status_text(status),
    ) =~= old(data).statuses());
    while i < words.len()
        invariant
            i <= words.len(),
            data.statuses() == with_words(
                old(data).statuses(),
                string_views(words@).take(i as int),
                status_text(status),
            ),
            data.word_definition_data == old(data).word_definition_data,
        decreases words.len() - i,
    {
        proof {
            let views = string_views(words@);
            assert(views.take(i + 1) =~= views.take(i as int).push(words@[i as int]@));
            lemma_with_words_push(
                old(data).statuses(),
                views.take(i as int),
                words@[i as int]@,
                status_text(status),
            );
        }
        update_word_status(data, words[i].as_str(), status);
        i = i + 1;
    }
    assert(string_views(words@).take(i as int) =~= string_views(words@));
}

/// Records the definition of one word, under the word's lower-case form.
pub fn update_word_definition(data: &mut UserWordData, word: &str, definition: &str)
    ensures
        final(data).definitions() == old(data).definitions().insert(
            lowercase_of(word@),
            definition@,
        ),
        final(data).word_status_data == old(data).word_status_data,
{
    set_text(&mut data.word_definition_data, lowercase(word), definition.to_owned());
}

} // verus!
