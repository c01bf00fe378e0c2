use vstd::prelude::*;
use crate::error::ErrorKind;
use crate::index::{build_index, pages_of, partitions, sentences_of};
use crate::lang::{
    language_of, parse_language, segments, token_views, unique_words_of, Segmenter,
};
use crate::models::{Article, NewArticleRequest};

verus! {

/// A text without the whitespace at its start and at its end.
pub uninterp spec fn trimmed(text: Seq<char>) -> Seq<char>;

/// A text is blank when nothing but whitespace is in it.
pub open spec fn blank(text: Seq<char>) -> bool {
    trimmed(text).len() == 0
}

/// The character sequences of a run of strings.
pub open spec fn string_views(words: Seq<String>) -> Seq<Seq<char>> {
    words.map_values(|w: String| w@)
}

/// Calls `str::trim`, whose result depends on the text alone.
#[verifier::external_body]
fn trim<'a>(text: &'a str) -> (inner: &'a str)
    ensures
        inner@ == trimmed(text@),
{
    text.trim()
}

impl Article {
    /// What is derived from the text agrees with it: the tokens joined
    /// together are the text, the length counts its characters, the
    /// sentences and the pages each partition the tokens, and the
    /// unique-word index holds the lower-case forms of the word-like tokens.
    pub open spec fn wf(&self) -> bool {
        &&& string_views(self.words@).flatten() == self.content@
        &&& self.content_length == self.content@.len()
        &&& sentences_of(string_views(self.words@), self.sentences@)
        &&& partitions(self.page_data@, self.words@.len() as int)
        &&& unique_words_of(self.unique_words, string_views(self.words@))
    }
}

/// Copies each token into a string of its own.
pub fn own_words(words: &Vec<&str>) -> (owned: Vec<String>)
    ensures
        string_views(owned@) == token_views(words@),
{
    let mut owned: Vec<String> = Vec::new();
    let mut i: usize = 0;
    while i < words.len()
        invariant
            i <= words.len(),
            owned@.len() == i,
            forall|j: int| 0 <= j < i ==> (#[trigger] owned@[j])@ == words@[j]@,
        decreases words.len() - i,
    {
        let word: &str = words[i];
        owned.push(word.to_owned());
        i = i + 1;
    }
    assert(string_views(owned@) =~= token_views(words@));
    owned
}

/// Builds the article for a submission: segments the text in the named
/// language and indexes the tokens. Blank content is refused as
/// `EmptyContent`; content in a language that cannot be segmented is refused
/// as `SegmentationFailed`. The article is private to its uploader exactly
/// when the request says so, has no tags where the request names none, and
/// has the id 0 until the store gives it one.
pub fn assemble(
    segmenter: &Segmenter,
    request: NewArticleRequest,
    uploader_id: i32,
    created_on: std::time::SystemTime,
    page_size: usize,
) -> (outcome: Result<Article, ErrorKind>)
    requires
        page_size > 0,
        request.content@.len() <= i32::MAX,
    ensures
        match outcome {
            Ok(article) => {
                &&& !blank(request.content@)
                &&& language_of(request.language@) is Some
                &&& article.wf()
                &&& segments(
                    string_views(article.words@),
                    request.content@,
                    language_of(request.language@).unwrap(),
                )
                &&& pages_of(
                    article.page_data@,
                    article.words@.len() as int,
                    page_size as int,
                )
                &&& article.id == 0
                &&& article.title == request.title
                &&& article.author == request.author
                &&& article.content == request.content
                &&& article.lang == request.language
                &&& article.tags@ == match request.tags {
                    Some(tags) => tags@,
                    None => Seq::<String>::empty(),
                }
                &&& article.is_system == !request.is_private
                &&& article.uploader_id == uploader_id
                &&& article.created_on == created_on
            },
            Err(kind) => if blank(request.content@) {
                kind == ErrorKind::EmptyContent
            } else {
                language_of(request.language@) is None && kind == ErrorKind::SegmentationFailed
            },
        },
{
    if trim(request.content.as_str()).is_empty() {
        return Err(ErrorKind::EmptyContent);
    }
    let language = match parse_language(request.language.as_str()) {
        Some(language) => language,
        None => {
            return Err(ErrorKind::SegmentationFailed);
        },
    };
    let content_length = request.content.as_str().unicode_len() as i32;
    let tokens = segmenter.segment(request.content.as_str(), language);
    let index = build_index(&tokens, page_size);
    let words = own_words(&tokens);
    let tags = match request.tags {
        Some(tags) => tags,
        None => Vec::new(),
    };
    Ok(
        Article {
            id: 0,
            title: request.title,
            author: request.author,
            content: request.content,
            content_length,
            words,
            sentences: index.sentences,
            unique_words: index.unique_words,
            page_data: index.pages,
            created_on,
            is_system: !request.is_private,
            uploader_id,
            lang: request.language,
            tags,
        },
    )
}

} // verus!
