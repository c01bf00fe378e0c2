use vstd::prelude::*;
use crate::json::{present_words, value_keys};
use crate::lang::{get_unique_words, token_views, unique_words_of};

verus! {

/// A run of consecutive tokens: those at the positions from `start` up to,
/// but not including, `end`.
#[derive(Clone, Copy, Debug, PartialEq, Eq, Structural)]
pub struct TokenRange {
    pub start: usize,
    pub end: usize,
}

/// The characters that end a sentence: the full stop, the exclamation mark
/// and the question mark, in their Latin and in their full-width forms.
pub open spec fn terminal_char(c: char) -> bool {
    c == '.' || c == '!' || c == '?' || c == '\u{3002}' || c == '\u{ff01}' || c == '\u{ff1f}'
}

/// A token ends a sentence when it is a single terminal character.
pub open spec fn sentence_final(token: Seq<char>) -> bool {
    token.len() == 1 && terminal_char(token[0])
}

/// The ranges are non-empty, follow one another without a gap or an overlap,
/// and together run from the first of `count` tokens to the last. Over no
/// tokens there is no range.
pub open spec fn partitions(ranges: Seq<TokenRange>, count: int) -> bool {
    &&& count <= 0 ==> ranges.len() == 0
    &&& count > 0 ==> ranges.len() > 0 && ranges[0].start == 0 && ranges.last().end == count
    &&& forall|i: int| 0 <= i < ranges.len() ==> (#[trigger] ranges[i]).start < ranges[i].end
    &&& forall|i: int|
        0 <= i < ranges.len() - 1 ==> (#[trigger] ranges[i]).end == ranges[i + 1].start
}

/// The ranges are the sentences of the tokens: they partition the tokens,
/// every range but the last ends with a sentence-final token, and no range
/// holds a sentence-final token before its last position.
pub open spec fn sentences_of(tokens: Seq<Seq<char>>, ranges: Seq<TokenRange>) -> bool {
    &&& partitions(ranges, tokens.len() as int)
    &&& forall|i: int|
        0 <= i < ranges.len() - 1 ==> sentence_final(tokens[(#[trigger] ranges[i]).end - 1])
    &&& forall|i: int, k: int|
        #![trigger in_range(ranges[i], k)]
        0 <= i < ranges.len() && in_range(ranges[i], k) && k < ranges[i].end - 1
            ==> !sentence_final(tokens[k])
}

/// Whether a position lies in a range.
pub open spec fn in_range(range: TokenRange, position: int) -> bool {
    range.start <= position < range.end
}

proof fn lemma_ranges_ordered(ranges: Seq<TokenRange>, count: int, i: int, j: int)
    requires
        partitions(ranges, count),
        0 <= i < j < ranges.len(),
    ensures
        ranges[i].end <= ranges[j].start,
    decreases j - i,
{
    if i + 1 < j {
        lemma_ranges_ordered(ranges, count, i, j - 1);
        assert(ranges[j - 1].end == ranges[j - 1 + 1].start);
        assert(ranges[j - 1].start < ranges[j - 1].end);
    } else {
        assert(ranges[i].end == ranges[i + 1].start);
    }
}

proof fn lemma_find_range(ranges: Seq<TokenRange>, count: int, position: int, from: int) -> (found:
    int)
    requires
        partitions(ranges, count),
        0 <= from < ranges.len(),
        ranges[from].start <= position < count,
    ensures
        0 <= found < ranges.len(),
        in_range(ranges[found], position),
    decreases ranges.len() - from,
{
    if position < ranges[from].end {
        from
    } else {
        assert(ranges.last().end == count);
        assert(ranges[from].end == ranges[from + 1].start);
        lemma_find_range(ranges, count, position, from + 1)
    }
}

/// Ranges that partition a run of tokens cover every token exactly once:
/// each position lies in one range, and in no second one.
pub proof fn lemma_partition_covers_once(ranges: Seq<TokenRange>, count: int, position: int)
    requires
        partitions(ranges, count),
        0 <= position < count,
    ensures
        exists|i: int| 0 <= i < ranges.len() && in_range(#[trigger] ranges[i], position),
        forall|i: int, j: int|
            0 <= i < ranges.len() && 0 <= j < ranges.len() && in_range(
                #[trigger] ranges[i],
                position,
            ) && in_range(#[trigger] ranges[j], position) ==> i == j,
{
    let found = lemma_find_range(ranges, count, position, 0);
    assert(in_range(ranges[found], position));
    assert forall|i: int, j: int|
        0 <= i < ranges.len() && 0 <= j < ranges.len() && in_range(
            #[trigger] ranges[i],
            position,
        ) && in_range(#[trigger] ranges[j], position) implies i == j by {
        if i < j {
            lemma_ranges_ordered(ranges, count, i, j);
        } else if j < i {
            lemma_ranges_ordered(ranges, count, j, i);
        }
    }
}

/// The sentences of a token sequence cover every token exactly once.
pub proof fn lemma_sentences_cover_once(
    tokens: Seq<Seq<char>>,
    ranges: Seq<TokenRange>,
    position: int,
)
    requires
        sentences_of(tokens, ranges),
        0 <= position < tokens.len(),
    ensures
        exists|i: int| 0 <= i < ranges.len() && in_range(#[trigger] ranges[i], position),
        forall|i: int, j: int|
            0 <= i < ranges.len() && 0 <= j < ranges.len() && in_range(
                #[trigger] ranges[i],
                position,
            ) && in_range(#[trigger] ranges[j], position) ==> i == j,
{
    lemma_partition_covers_once(ranges, tokens.len() as int, position);
}

proof fn lemma_range_ends_within(ranges: Seq<TokenRange>, count: int, i: int)
    requires
        partitions(ranges, count),
        0 <= i < ranges.len(),
    ensures
        ranges[i].end <= count,
        i < ranges.len() - 1 ==> ranges[i].end < count,
{
    if i < ranges.len() - 1 {
        lemma_ranges_ordered(ranges, count, i, ranges.len() - 1);
        assert(ranges[ranges.len() - 1].start < ranges[ranges.len() - 1].end);
    }
    assert(ranges.last().end == count);
}

proof fn lemma_sentences_agree(
    tokens: Seq<Seq<char>>,
    first: Seq<TokenRange>,
    second: Seq<TokenRange>,
    i: int,
)
    requires
        sentences_of(tokens, first),
        sentences_of(tokens, second),
        0 <= i < first.len(),
    ensures
        i < second.len(),
        first[i] == second[i],
    decreases i,
{
    let count = tokens.len() as int;
    lemma_range_ends_within(first, count, i);
    assert(first[i].start < first[i].end);
    if i > 0 {
        lemma_sentences_agree(tokens, first, second, i - 1);
        assert(first[i - 1].end == first[i - 1 + 1].start);
        lemma_range_ends_within(second, count, i - 1);
        if i - 1 == second.len() - 1 {
            assert(second[i - 1].end == count);
            assert(false);
        }
        assert(second[i - 1].end == second[i - 1 + 1].start);
    }
    assert(first[i].start == second[i].start);
    lemma_range_ends_within(second, count, i);
    assert(second[i].start < second[i].end);
    let a = first[i].end as int;
    let b = second[i].end as int;
    if a < b {
        assert(i < first.len() - 1);
        assert(sentence_final(tokens[first[i].end - 1]));
        assert(in_range(second[i], a - 1));
        assert(false);
    }
    if b < a {
        assert(i < second.len() - 1);
        assert(sentence_final(tokens[second[i].end - 1]));
        assert(in_range(first[i], b - 1));
        assert(false);
    }
}

/// A token sequence has one sentence segmentation and no other: two that
/// both meet `sentences_of` are the same.
pub proof fn lemma_sentences_unique(
    tokens: Seq<Seq<char>>,
    first: Seq<TokenRange>,
    second: Seq<TokenRange>,
)
    requires
        sentences_of(tokens, first),
        sentences_of(tokens, second),
    ensures
        first == second,
{
    if first.len() > 0 {
        lemma_sentences_agree(tokens, first, second, first.len() - 1);
    }
    if second.len() > 0 {
        lemma_sentences_agree(tokens, second, first, second.len() - 1);
    }
    assert forall|i: int| 0 <= i < first.len() implies first[i] == second[i] by {
        lemma_sentences_agree(tokens, first, second, i);
    }
    assert(first =~= second);
}

/// Whether a token is a single sentence-ending character.
pub fn is_sentence_final(token: &str) -> (yes: bool)
    ensures
        yes == sentence_final(token@),
{
    if token.unicode_len() != 1 {
        return false;
    }
    let c = token.get_char(0);
    c == '.' || c == '!' || c == '?' || c == '\u{3002}' || c == '\u{ff01}' || c == '\u{ff1f}'
}

/// Groups the tokens into sentences. A sentence ends with each sentence-final
/// token; tokens after the last such token form a sentence of their own, so
/// that no token is left out. No tokens give no sentence.
pub fn split_sentences(words: &Vec<&str>) -> (sentences: Vec<TokenRange>)
    ensures
        sentences_of(token_views(words@), sentences@),
{
    let ghost tokens = token_views(words@);
    let n: usize = words.len();
    let mut sentences: Vec<TokenRange> = Vec::new();
    let mut start: usize = 0;
    let mut i: usize = 0;
    while i < n
        invariant
            n == words.len(),
            tokens == token_views(words@),
            start <= i <= n,
            sentences@.len() == 0 ==> start == 0,
            sentences@.len() > 0 ==> sentences@[0].start == 0 && sentences@.last().end == start,
            forall|j: int|
                0 <= j < sentences@.len() ==> (#[trigger] sentences@[j]).start < sentences@[j].end,
            forall|j: int|
                0 <= j < sentences@.len() - 1 ==> (#[trigger] sentences@[j]).end == sentences@[j
                    + 1].start,
            forall|j: int|
                0 <= j < sentences@.len() ==> sentence_final(
                    tokens[(#[trigger] sentences@[j]).end - 1],
                ),
            forall|j: int, k: int|
                #![trigger in_range(sentences@[j], k)]
                0 <= j < sentences@.len() && in_range(sentences@[j], k) && k < sentences@[j].end
                    - 1 ==> !sentence_final(tokens[k]),
            forall|k: int| start <= k < i ==> !sentence_final(#[trigger] tokens[k]),
        decreases n - i,
    {
        let word: &str = words[i];
        assert(tokens[i as int] == word@);
        if is_sentence_final(word) {
            sentences.push(TokenRange { start, end: i + 1 });
            start = i + 1;
        }
        i = i + 1;
    }
    if start < n {
        sentences.push(TokenRange { start, end: n });
    }
    sentences
}

/// The position at which the page with the given index starts.
pub open spec fn page_start(index: int, size: int) -> int {
    index * size
}

/// The position before which the page with the given index ends: a full page
/// where that many tokens are left, and the last token otherwise.
pub open spec fn page_end(index: int, size: int, count: int) -> int {
    if (index + 1) * size <= count {
        (index + 1) * size
    } else {
        count
    }
}

/// The number of pages of `size` tokens that `count` tokens fill, the last
/// one perhaps only in part.
pub open spec fn page_count(count: int, size: int) -> int {
    (count + size - 1) / size
}

/// The pages are those of `count` tokens at `size` tokens a page.
pub open spec fn pages_of(pages: Seq<TokenRange>, count: int, size: int) -> bool {
    &&& pages.len() == page_count(count, size)
    &&& forall|i: int|
        0 <= i < pages.len() ==> (#[trigger] pages[i]).start == page_start(i, size) && pages[i].end
            == page_end(i, size, count)
}

proof fn lemma_last_page(count: int, size: int, full: int)
    requires
        size > 0,
        full >= 0,
        full * size < count <= (full + 1) * size,
    ensures
        page_count(count, size) == full + 1,
{
    assert((count + size - 1) / size == full + 1) by (nonlinear_arith)
        requires
            size > 0,
            full >= 0,
            full * size < count <= (full + 1) * size,
    ;
}

proof fn lemma_no_page(size: int)
    requires
        size > 0,
    ensures
        page_count(0, size) == 0,
{
    assert((0 + size - 1) / size == 0) by (nonlinear_arith)
        requires
            size > 0,
    ;
}

proof fn lemma_next_page(index: int, size: int)
    ensures
        (index + 1) * size == index * size + size,
{
    assert((index + 1) * size == index * size + size) by (nonlinear_arith);
}

/// Cuts `token_count` tokens into pages of `page_size` tokens. Every page but
/// the last is full; the last holds what is left and is never empty. No
/// tokens give no page.
pub fn paginate(token_count: usize, page_size: usize) -> (pages: Vec<TokenRange>)
    requires
        page_size > 0,
    ensures
        pages_of(pages@, token_count as int, page_size as int),
        forall|i: int|
            0 <= i < pages@.len() - 1 ==> (#[trigger] pages@[i]).end - pages@[i].start
                == page_size,
        partitions(pages@, token_count as int),
{
    let mut pages: Vec<TokenRange> = Vec::new();
    let mut start: usize = 0;
    proof {
        lemma_no_page(page_size as int);
        assert(0 * page_size == 0) by (nonlinear_arith);
    }
    while start < token_count
        invariant
            page_size > 0,
            start <= token_count,
            start < token_count ==> start == pages@.len() * page_size,
            start == token_count ==> pages@.len() == page_count(
                token_count as int,
                page_size as int,
            ),
            token_count > 0 && pages@.len() > 0 ==> pages@[0].start == 0,
            pages@.len() > 0 ==> pages@.last().end == start,
            pages@.len() == 0 ==> start == 0,
            forall|i: int|
                0 <= i < pages@.len() ==> (#[trigger] pages@[i]).start == page_start(
                    i,
                    page_size as int,
                ) && pages@[i].end == page_end(i, page_size as int, token_count as int),
            forall|i: int|
                0 <= i < pages@.len() ==> (#[trigger] pages@[i]).start < pages@[i].end,
            forall|i: int|
                0 <= i < pages@.len() - 1 ==> (#[trigger] pages@[i]).end == pages@[i + 1].start,
            forall|i: int|
                0 <= i < pages@.len() ==> (#[trigger] pages@[i]).end - pages@[i].start
                    == page_size || pages@[i].end == token_count,
            forall|i: int|
                0 <= i < pages@.len() ==> (#[trigger] pages@[i]).end <= start,
        decreases token_count - start,
    {
        let ghost index = pages@.len() as int;
        proof {
            lemma_next_page(index, page_size as int);
        }
        let end: usize = if token_count - start > page_size {
            start + page_size
        } else {
            proof {
                lemma_last_page(token_count as int, page_size as int, index);
            }
            token_count
        };
        pages.push(TokenRange { start, end });
        start = end;
    }
    proof {
        assert forall|i: int| 0 <= i < pages@.len() - 1 implies (#[trigger] pages@[i]).end
            - pages@[i].start == page_size by {
            assert(pages@[i].end == pages@[i + 1].start);
            assert(pages@[i + 1].start < pages@[i + 1].end);
            assert(pages@[i + 1].end <= token_count);
        }
    }
    pages
}

/// What the lexical indexer makes of a token sequence.
pub struct LexicalIndex {
    /// The sentences, as ranges over the tokens.
    pub sentences: Vec<TokenRange>,
    /// The lower-case form of each word-like token, as the keys of a JSON
    /// object whose values are all `true`.
    pub unique_words: serde_json::Value,
    /// The pages, as ranges over the tokens.
    pub pages: Vec<TokenRange>,
}

impl LexicalIndex {
    /// Whether this is the index of the tokens at `page_size` tokens a page.
    pub open spec fn indexes(&self, tokens: Seq<Seq<char>>, page_size: int) -> bool {
        &&& sentences_of(tokens, self.sentences@)
        &&& unique_words_of(self.unique_words, tokens)
        &&& pages_of(self.pages@, tokens.len() as int, page_size)
        &&& partitions(self.pages@, tokens.len() as int)
    }
}

/// Indexes a token sequence: its sentences, its unique words and its pages.
/// No tokens give no sentence, no unique word and no page.
pub fn build_index(words: &Vec<&str>, page_size: usize) -> (index: LexicalIndex)
    requires
        page_size > 0,
    ensures
        index.indexes(token_views(words@), page_size as int),
{
    LexicalIndex {
        sentences: split_sentences(words),
        unique_words: get_unique_words(words),
        pages: paginate(words.len(), page_size),
    }
}

/// Indexing is repeatable: two indexes of the same tokens at the same page
/// size have the same sentences, the same unique words and the same pages.
pub proof fn lemma_index_determined(
    tokens: Seq<Seq<char>>,
    page_size: int,
    first: LexicalIndex,
    second: LexicalIndex,
)
    requires
        first.indexes(tokens, page_size),
        second.indexes(tokens, page_size),
    ensures
        first.sentences@ == second.sentences@,
        value_keys(first.unique_words) == value_keys(second.unique_words),
        present_words(first.unique_words) == present_words(second.unique_words),
        first.pages@ == second.pages@,
{
    lemma_sentences_unique(tokens, first.sentences@, second.sentences@);
    assert(first.pages@ =~= second.pages@);
}

} // verus!
