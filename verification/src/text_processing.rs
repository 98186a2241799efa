//! Working on text: distances between strings, tokens and chunks.

use vstd::prelude::*;
use vstd::utf8::encode_utf8;
pub use crate::keywords::extract_keywords;
pub use crate::summary::summarize_text;
use crate::chars::{
    is_ascii_punctuation,
    is_punctuation,
    is_space,
    is_whitespace,
    trim,
    trim_start,
    trimmed,
};
use crate::text_chunks::{chunk_by_tokens, token_chunks};
use crate::text_layout::{
    blank_line_from,
    field_rows,
    find_blank_line,
    header_fields,
    header_of,
    lines_of,
    paragraphs_of,
    split_lines,
    split_paragraphs,
};
use crate::string_map::StringMap;
use crate::word_lists::{list_has, stopwords, stopwords_list};
use crate::strings::{
    chars_of,
    copy_range,
    lowercase_of,
    rows,
    same_chars,
    string_from_chars,
    string_views,
    to_lowercase,
};

verus! {

/// The least of three numbers.
pub open spec fn min3(a: int, b: int, c: int) -> int {
    if a <= b && a <= c {
        a
    } else if b <= c {
        b
    } else {
        c
    }
}

/// The edit distance between the first `i` characters of `a` and the first
/// `j` of `b`: the least number of insertions, deletions and replacements
/// of one character that turn the one into the other.
pub open spec fn edit_distance(a: Seq<char>, b: Seq<char>, i: nat, j: nat) -> int
    decreases i + j,
{
    if i == 0 {
        j as int
    } else if j == 0 {
        i as int
    } else {
        min3(
            edit_distance(a, b, (i - 1) as nat, j) + 1,
            edit_distance(a, b, i, (j - 1) as nat) + 1,
            edit_distance(a, b, (i - 1) as nat, (j - 1) as nat) + (if a[i - 1] == b[j - 1] {
                0int
            } else {
                1int
            }),
        )
    }
}

/// The edit distance lies between 0 and the longer of the two lengths.
pub proof fn lemma_edit_distance_bounds(a: Seq<char>, b: Seq<char>, i: nat, j: nat)
    ensures
        0 <= edit_distance(a, b, i, j),
        edit_distance(a, b, i, j) <= (if i >= j {
            i
        } else {
            j
        }),
    decreases i + j,
{
    if i > 0 && j > 0 {
        lemma_edit_distance_bounds(a, b, (i - 1) as nat, j);
        lemma_edit_distance_bounds(a, b, i, (j - 1) as nat);
        lemma_edit_distance_bounds(a, b, (i - 1) as nat, (j - 1) as nat);
    }
}

/// The Levenshtein distance between two strings, counted in characters.
pub fn levenshtein_distance(s1: &str, s2: &str) -> (distance: usize)
    requires
        s1@.len() < usize::MAX,
        s2@.len() < usize::MAX,
    ensures
        distance == edit_distance(s1@, s2@, s1@.len(), s2@.len()),
{
    let a = chars_of(s1);
    let b = chars_of(s2);
    let m = a.len();
    let n = b.len();
    if m == 0 {
        return n;
    }
    if n == 0 {
        return m;
    }
    let mut previous: Vec<usize> = Vec::new();
    let mut j: usize = 0;
    while j <= n
        invariant
            j <= n + 1,
            n < usize::MAX,
            previous.len() == j,
            forall|k: int| 0 <= k < j ==> previous[k] == edit_distance(a@, b@, 0, k as nat),
        decreases n + 1 - j,
    {
        previous.push(j);
        j += 1;
    }
    let mut i: usize = 1;
    while i <= m
        invariant
            1 <= i <= m + 1,
            m == a.len(),
            n == b.len(),
            0 < n < usize::MAX,
            m < usize::MAX,
            previous.len() == n + 1,
            forall|k: int|
                0 <= k <= n ==> previous[k] == edit_distance(a@, b@, (i - 1) as nat, k as nat),
        decreases m + 1 - i,
    {
        let mut current: Vec<usize> = Vec::new();
        current.push(i);
        let mut j: usize = 1;
        while j <= n
            invariant
                1 <= j <= n + 1,
                1 <= i <= m,
                m == a.len(),
                n == b.len(),
                n < usize::MAX,
                m < usize::MAX,
                previous.len() == n + 1,
                current.len() == j,
                forall|k: int|
                    0 <= k <= n ==> previous[k] == edit_distance(
                        a@,
                        b@,
                        (i - 1) as nat,
                        k as nat,
                    ),
                forall|k: int| 0 <= k < j ==> current[k] == edit_distance(a@, b@, i as nat, k as nat),
            decreases n + 1 - j,
        {
            proof {
                lemma_edit_distance_bounds(a@, b@, (i - 1) as nat, j as nat);
                lemma_edit_distance_bounds(a@, b@, i as nat, (j - 1) as nat);
                lemma_edit_distance_bounds(a@, b@, (i - 1) as nat, (j - 1) as nat);
            }
            let cost: usize = if a[i - 1] == b[j - 1] {
                0
            } else {
                1
            };
            let deletion: usize = previous[j] + 1;
            let insertion: usize = current[j - 1] + 1;
            let replacement: usize = previous[j - 1] + cost;
            let best: usize = if deletion <= insertion && deletion <= replacement {
                deletion
            } else if insertion <= replacement {
                insertion
            } else {
                replacement
            };
            current.push(best);
            j += 1;
        }
        previous = current;
        i += 1;
    }
    previous[n]
}

/// Whether tokenizing keeps a character where punctuation is removed:
/// anything but ASCII punctuation, and the apostrophe.
pub open spec fn kept_in_tokens(c: char) -> bool {
    !is_punctuation(c) || c == '\''
}

/// The first `n` characters without the punctuation that tokenizing removes.
pub open spec fn without_punctuation(s: Seq<char>, n: nat) -> Seq<char>
    decreases n,
{
    if n == 0 {
        Seq::empty()
    } else {
        let before = without_punctuation(s, (n - 1) as nat);
        if kept_in_tokens(s[n - 1]) {
            before.push(s[n - 1])
        } else {
            before
        }
    }
}

/// The word that is being read after the first `n` characters: the
/// characters since the last white space.
pub open spec fn open_word(s: Seq<char>, n: nat) -> Seq<char>
    decreases n,
{
    if n == 0 || is_space(s[n - 1]) {
        Seq::empty()
    } else {
        open_word(s, (n - 1) as nat).push(s[n - 1])
    }
}

/// The words that are complete after the first `n` characters.
pub open spec fn closed_words(s: Seq<char>, n: nat) -> Seq<Seq<char>>
    decreases n,
{
    if n == 0 {
        Seq::empty()
    } else {
        let before = closed_words(s, (n - 1) as nat);
        if is_space(s[n - 1]) && open_word(s, (n - 1) as nat).len() > 0 {
            before.push(open_word(s, (n - 1) as nat))
        } else {
            before
        }
    }
}

/// The words of a text: its largest runs of characters that are not white
/// space, in their order.
pub open spec fn words(s: Seq<char>) -> Seq<Seq<char>> {
    if open_word(s, s.len()).len() > 0 {
        closed_words(s, s.len()).push(open_word(s, s.len()))
    } else {
        closed_words(s, s.len())
    }
}

/// Removes the punctuation that tokenizing removes.
pub fn remove_punctuation(s: &Vec<char>) -> (r: Vec<char>)
    ensures
        r@ == without_punctuation(s@, s@.len()),
{
    let mut r: Vec<char> = Vec::new();
    let mut i: usize = 0;
    while i < s.len()
        invariant
            i <= s.len(),
            r@ == without_punctuation(s@, i as nat),
        decreases s.len() - i,
    {
        let c = s[i];
        if !is_ascii_punctuation(c) || c == '\'' {
            r.push(c);
        }
        i += 1;
    }
    r
}

/// Splits a text at white space.
pub fn split_words(s: &Vec<char>) -> (r: Vec<Vec<char>>)
    ensures
        rows(r@) == words(s@),
{
    let mut done: Vec<Vec<char>> = Vec::new();
    let mut current: Vec<char> = Vec::new();
    let mut i: usize = 0;
    assert(rows(done@) =~= closed_words(s@, 0));
    while i < s.len()
        invariant
            i <= s.len(),
            rows(done@) == closed_words(s@, i as nat),
            current@ == open_word(s@, i as nat),
        decreases s.len() - i,
    {
        let c = s[i];
        if is_whitespace(c) {
            if current.len() > 0 {
                let ghost before = rows(done@);
                done.push(current);
                assert(rows(done@) =~= before.push(open_word(s@, i as nat)));
                current = Vec::new();
            } else {
                current = Vec::new();
            }
        } else {
            current.push(c);
        }
        i += 1;
    }
    if current.len() > 0 {
        let ghost before = rows(done@);
        done.push(current);
        assert(rows(done@) =~= before.push(open_word(s@, s@.len())));
    }
    done
}

/// Whether a word ends with a suffix.
pub open spec fn ends_with(word: Seq<char>, suffix: Seq<char>) -> bool {
    word.len() >= suffix.len() && word.subrange(word.len() - suffix.len(), word.len() as int)
        == suffix
}

/// Whether stemming takes a suffix off a word: the word ends with it and
/// is more than two bytes longer, counted in UTF-8.
pub open spec fn stems_by(word: Seq<char>, suffix: Seq<char>) -> bool {
    ends_with(word, suffix) && encode_utf8(word).len() > suffix.len() + 2
}

/// The suffixes that stemming knows, in the order in which it tries them.
pub open spec fn stem_suffixes() -> Seq<Seq<char>> {
    seq![
        "ing"@,
        "ed"@,
        "s"@,
        "es"@,
        "ies"@,
        "ly"@,
        "ment"@,
        "ness"@,
        "ity"@,
        "tion"@,
    ]
}

/// The word without the first of the first `n` suffixes that stemming
/// takes off it, tried in order; the word itself where none is.
pub open spec fn stemmed_by(word: Seq<char>, suffixes: Seq<Seq<char>>, from: nat) -> Seq<char>
    decreases suffixes.len() - from,
{
    if from >= suffixes.len() {
        word
    } else if stems_by(word, suffixes[from as int]) {
        word.take(word.len() - suffixes[from as int].len())
    } else {
        stemmed_by(word, suffixes, from + 1)
    }
}

/// The stem of a word: the word without the first suffix of
/// `stem_suffixes` that stemming takes off it.
pub open spec fn stem(word: Seq<char>) -> Seq<char> {
    stemmed_by(word, stem_suffixes(), 0)
}

/// Tests whether a word ends with a suffix.
pub fn has_suffix(word: &Vec<char>, suffix: &Vec<char>) -> (r: bool)
    ensures
        r == ends_with(word@, suffix@),
{
    if word.len() < suffix.len() {
        return false;
    }
    let offset: usize = word.len() - suffix.len();
    let mut i: usize = 0;
    while i < suffix.len()
        invariant
            i <= suffix.len(),
            offset + suffix.len() == word.len(),
            forall|k: int| 0 <= k < i ==> word[offset + k] == suffix[k],
        decreases suffix.len() - i,
    {
        if word[offset + i] != suffix[i] {
            assert(word@.subrange(offset as int, word.len() as int)[i as int] != suffix@[i as int]);
            return false;
        }
        i += 1;
    }
    assert(word@.subrange(offset as int, word.len() as int) =~= suffix@);
    true
}

/// The suffixes that stemming knows.
fn suffix_list() -> (list: Vec<Vec<char>>)
    ensures
        rows(list@) == stem_suffixes(),
{
    let mut list: Vec<Vec<char>> = Vec::new();
    list.push(chars_of("ing"));
    list.push(chars_of("ed"));
    list.push(chars_of("s"));
    list.push(chars_of("es"));
    list.push(chars_of("ies"));
    list.push(chars_of("ly"));
    list.push(chars_of("ment"));
    list.push(chars_of("ness"));
    list.push(chars_of("ity"));
    list.push(chars_of("tion"));
    assert(rows(list@) =~= stem_suffixes());
    list
}

/// Takes a common suffix off a word: the first of `ing`, `ed`, `s`, `es`,
/// `ies`, `ly`, `ment`, `ness`, `ity` and `tion` with which the word ends
/// and which leaves more than two bytes of it.
pub fn stem_word(word: &str) -> (stemmed: String)
    ensures
        stemmed@ == stem(word@),
{
    let chars = chars_of(word);
    let bytes: usize = word.as_bytes().len();
    let suffixes = suffix_list();
    let mut i: usize = 0;
    while i < suffixes.len()
        invariant
            i <= suffixes.len(),
            chars@ == word@,
            bytes == encode_utf8(word@).len(),
            rows(suffixes@) == stem_suffixes(),
            stem(word@) == stemmed_by(word@, stem_suffixes(), i as nat),
        decreases suffixes.len() - i,
    {
        let suffix = &suffixes[i];
        assert(rows(suffixes@)[i as int] == suffix@);
        if has_suffix(&chars, suffix) && bytes >= 3 && bytes - 3 >= suffix.len() {
            let kept = copy_range(&chars, 0, chars.len() - suffix.len());
            assert(kept@ =~= word@.take(word@.len() - suffix@.len()));
            return string_from_chars(&kept);
        }
        i += 1;
    }
    string_from_chars(&chars)
}

/// What is known of a chunk besides its text: values by key.
pub type Metadata = StringMap;

/// A piece of a text.
#[derive(Debug)]
pub struct TextChunk {
    /// The text of the piece.
    pub content: String,
    /// What is known of the piece.
    pub metadata: Metadata,
}

/// How tokens are made.
#[derive(Debug, Clone, Copy, PartialEq, Eq, Structural)]
pub struct TokenizerConfig {
    /// Whether the text is put in lower case first.
    pub lowercase: bool,
    /// Whether punctuation is removed, but for apostrophes.
    pub remove_punctuation: bool,
    /// Whether stopwords are left out.
    pub remove_stopwords: bool,
    /// Whether the tokens are stemmed.
    pub stem_words: bool,
}

impl Default for TokenizerConfig {
    fn default() -> (config: TokenizerConfig)
        ensures
            config == (TokenizerConfig {
                lowercase: true,
                remove_punctuation: true,
                remove_stopwords: false,
                stem_words: false,
            }),
    {
        TokenizerConfig {
            lowercase: true,
            remove_punctuation: true,
            remove_stopwords: false,
            stem_words: false,
        }
    }
}

/// How a text is cut into chunks.
#[derive(Debug, Clone, Copy, PartialEq, Eq, Structural)]
pub enum ChunkingStrategy {
    /// Chunks of at most so many tokens.
    FixedSize(usize),
    /// One chunk for each paragraph.
    Paragraph,
    /// One chunk for each heading with what follows it.
    Semantic,
}

/// Makes tokens and chunks of texts.
#[derive(Debug)]
pub struct TextProcessor {
    config: TokenizerConfig,
    chunking_strategy: ChunkingStrategy,
    stopwords: Vec<Vec<char>>,
}

/// The first `n` words without the stopwords.
pub open spec fn without_stopwords(tokens: Seq<Seq<char>>, n: nat) -> Seq<Seq<char>>
    decreases n,
{
    if n == 0 {
        Seq::empty()
    } else {
        let before = without_stopwords(tokens, (n - 1) as nat);
        if stopwords().contains(tokens[n - 1]) {
            before
        } else {
            before.push(tokens[n - 1])
        }
    }
}

/// The stems of the words.
pub open spec fn stems(tokens: Seq<Seq<char>>) -> Seq<Seq<char>> {
    Seq::new(tokens.len(), |i: int| stem(tokens[i]))
}

/// The tokens of a text that is in the wanted case: the words of the text,
/// without punctuation where the configuration says so, then without the
/// stopwords where it says so, then stemmed where it says so.
pub open spec fn tokens_of(config: TokenizerConfig, prepared: Seq<char>) -> Seq<Seq<char>> {
    let text = if config.remove_punctuation {
        without_punctuation(prepared, prepared.len())
    } else {
        prepared
    };
    let all = words(text);
    let wanted = if config.remove_stopwords {
        without_stopwords(all, all.len())
    } else {
        all
    };
    if config.stem_words {
        stems(wanted)
    } else {
        wanted
    }
}

/// The tokens of a text: those of its lower-case form where the
/// configuration says so, else those of the text as it is.
pub open spec fn tokenized(config: TokenizerConfig, text: Seq<char>) -> Seq<Seq<char>> {
    if config.lowercase {
        tokens_of(config, lowercase_of(text))
    } else {
        tokens_of(config, text)
    }
}

impl TextProcessor {
    /// The configuration of the processor.
    pub closed spec fn configuration(&self) -> TokenizerConfig {
        self.config
    }

    /// The chunking strategy of the processor.
    pub closed spec fn strategy(&self) -> ChunkingStrategy {
        self.chunking_strategy
    }

    /// Whether the processor is valid: it holds the list of stopwords.
    pub closed spec fn wf(&self) -> bool {
        rows(self.stopwords@) == stopwords()
    }

    /// A processor with this configuration and strategy.
    pub fn new(config: TokenizerConfig, chunking_strategy: ChunkingStrategy) -> (processor:
        TextProcessor)
        ensures
            processor.wf(),
            processor.configuration() == config,
            processor.strategy() == chunking_strategy,
    {
        TextProcessor { config, chunking_strategy, stopwords: stopwords_list() }
    }

    /// The tokens of a text that is in the wanted case already.
    pub fn tokenize_prepared(&self, prepared: &str) -> (tokens: Vec<String>)
        requires
            self.wf(),
        ensures
            string_views(tokens@) == tokens_of(self.configuration(), prepared@),
    {
        let given = chars_of(prepared);
        let text = if self.config.remove_punctuation {
            remove_punctuation(&given)
        } else {
            given
        };
        let all = split_words(&text);
        let ghost all_words = rows(all@);
        let mut tokens: Vec<String> = Vec::new();
        let ghost mut wanted: Seq<Seq<char>> = Seq::empty();
        let mut i: usize = 0;
        assert(string_views(tokens@) =~= Seq::<Seq<char>>::empty());
        while i < all.len()
            invariant
                i <= all.len(),
                self.wf(),
                all_words == rows(all@),
                wanted == (if self.config.remove_stopwords {
                    without_stopwords(all_words, i as nat)
                } else {
                    all_words.take(i as int)
                }),
                string_views(tokens@) == (if self.config.stem_words {
                    stems(wanted)
                } else {
                    wanted
                }),
            decreases all.len() - i,
        {
            let word = &all[i];
            assert(all_words[i as int] == word@);
            let ghost before = string_views(tokens@);
            let ghost wanted_before = wanted;
            if self.config.remove_stopwords && list_has(&self.stopwords, word) {
            } else {
                let token = string_from_chars(word);
                if self.config.stem_words {
                    tokens.push(stem_word(token.as_str()));
                } else {
                    tokens.push(token);
                }
                proof {
                    wanted = wanted.push(word@);
                    assert(all_words.take(i + 1) =~= all_words.take(i as int).push(word@));
                    if self.config.stem_words {
                        assert(before == stems(wanted_before));
                        assert(before.len() == wanted_before.len());
                        assert(string_views(tokens@).len() == before.len() + 1);
                        assert(stems(wanted).len() == wanted_before.len() + 1);
                        assert forall|k: int|
                            0 <= k < string_views(tokens@).len() implies string_views(tokens@)[k]
                            == stems(wanted)[k] by {
                            if k < before.len() {
                                assert(string_views(tokens@)[k] == before[k]);
                                assert(stems(wanted_before)[k] == stem(wanted_before[k]));
                            }
                        }
                        assert(string_views(tokens@) =~= stems(wanted));
                    } else {
                        assert(string_views(tokens@) =~= wanted);
                    }
                }
            }
            i += 1;
        }
        assert(all_words.take(all.len() as int) =~= all_words);
        tokens
    }

    /// The tokens of a text.
    pub fn tokenize(&self, text: &str) -> (tokens: Vec<String>)
        requires
            self.wf(),
        ensures
            string_views(tokens@) == tokenized(self.configuration(), text@),
    {
        if self.config.lowercase {
            let lowered = to_lowercase(text);
            self.tokenize_prepared(lowered.as_str())
        } else {
            self.tokenize_prepared(text)
        }
    }
}

/// The mathematical value of a `TextChunk`.
pub struct TextChunkModel {
    pub content: Seq<char>,
    pub metadata: Map<Seq<char>, Seq<char>>,
}

impl View for TextChunk {
    type V = TextChunkModel;

    open spec fn view(&self) -> TextChunkModel {
        TextChunkModel { content: self.content@, metadata: self.metadata@ }
    }
}

/// The values of a list of chunks.
pub open spec fn chunk_models(chunks: Seq<TextChunk>) -> Seq<TextChunkModel> {
    Seq::new(chunks.len(), |i: int| chunks[i]@)
}

/// The metadata that the first `n` header fields give: each value under
/// the lower-case form of its name, a later field in place of an earlier
/// one of the same name.
pub open spec fn fields_map(fields: Seq<(Seq<char>, Seq<char>)>, n: nat) -> Map<
    Seq<char>,
    Seq<char>,
>
    decreases n,
{
    if n == 0 {
        Map::empty()
    } else {
        fields_map(fields, (n - 1) as nat).insert(lowercase_of(fields[n - 1].0), fields[n - 1].1)
    }
}

/// The metadata that the header of a text states.
pub open spec fn metadata_of(text: Seq<char>) -> Map<Seq<char>, Seq<char>> {
    fields_map(header_of(text), header_of(text).len())
}

/// Chunks of these texts, without metadata.
pub open spec fn plain_chunks(texts: Seq<Seq<char>>) -> Seq<TextChunkModel> {
    Seq::new(texts.len(), |i: int| TextChunkModel { content: texts[i], metadata: Map::empty() })
}

/// The first position from `from` on that holds no number sign, or the
/// length.
pub open spec fn after_hashes(line: Seq<char>, from: nat) -> nat
    decreases line.len() - from,
{
    if from >= line.len() {
        line.len()
    } else if line[from as int] == '#' {
        after_hashes(line, from + 1)
    } else {
        from
    }
}

/// The heading that a line states, if it is a heading line: one or more
/// number signs, then one or more characters of white space, then the
/// heading.
pub open spec fn heading_of(line: Seq<char>) -> Option<Seq<char>> {
    let marks = after_hashes(line, 0);
    let start = trim_start(line, marks);
    if marks >= 1 && start > marks {
        Some(line.skip(start as int))
    } else {
        None
    }
}

/// The chunk that a heading and the lines read under it make: the lines
/// without the white space at their ends, with the heading as metadata
/// where it is not empty; none where nothing but white space was read.
pub open spec fn section_chunk(current: Seq<char>, heading: Seq<char>) -> Seq<TextChunkModel> {
    if trimmed(current).len() == 0 {
        Seq::empty()
    } else {
        seq![
            TextChunkModel {
                content: trimmed(current),
                metadata: if heading.len() == 0 {
                    Map::empty()
                } else {
                    Map::empty().insert("heading"@, heading)
                },
            },
        ]
    }
}

/// Where the reading of sections stands.
pub struct SectionState {
    /// The chunks that are complete.
    pub chunks: Seq<TextChunkModel>,
    /// The lines read since the last heading line, that line included, each
    /// with a line feed behind it.
    pub current: Seq<char>,
    /// The heading of the last heading line.
    pub heading: Seq<char>,
}

/// The state after the first `n` lines. A heading line completes the chunk
/// that was being read and starts the next.
pub open spec fn sections_after(lines: Seq<Seq<char>>, n: nat) -> SectionState
    decreases n,
{
    if n == 0 {
        SectionState { chunks: Seq::empty(), current: Seq::empty(), heading: Seq::empty() }
    } else {
        let before = sections_after(lines, (n - 1) as nat);
        let line = lines[n - 1];
        match heading_of(line) {
            Some(heading) => SectionState {
                chunks: before.chunks + section_chunk(before.current, before.heading),
                current: line.push('\n'),
                heading,
            },
            None => SectionState {
                chunks: before.chunks,
                current: before.current + line.push('\n'),
                heading: before.heading,
            },
        }
    }
}

/// The chunks of a text by its headings: one for each heading line with the
/// lines that follow it, and one for the lines before the first heading
/// line; the text as it is where that gives no chunk.
pub open spec fn sections_of(text: Seq<char>) -> Seq<TextChunkModel> {
    let end = sections_after(lines_of(text), lines_of(text).len());
    let all = end.chunks + section_chunk(end.current, end.heading);
    if all.len() == 0 {
        seq![TextChunkModel { content: text, metadata: Map::empty() }]
    } else {
        all
    }
}

/// Reads the heading of a line, if it is a heading line.
pub fn read_heading(line: &Vec<char>) -> (r: Option<Vec<char>>)
    ensures
        match heading_of(line@) {
            Some(heading) => r matches Some(found) && found@ == heading,
            None => r is None,
        },
{
    let mut marks: usize = 0;
    while marks < line.len() && line[marks] == '#'
        invariant
            marks <= line.len(),
            after_hashes(line@, 0) == after_hashes(line@, marks as nat),
        decreases line.len() - marks,
    {
        marks += 1;
    }
    let mut start: usize = marks;
    while start < line.len() && is_whitespace(line[start])
        invariant
            marks <= start <= line.len(),
            trim_start(line@, marks as nat) == trim_start(line@, start as nat),
        decreases line.len() - start,
    {
        start += 1;
    }
    if marks >= 1 && start > marks {
        let heading = copy_range(line, start, line.len());
        assert(heading@ =~= line@.skip(start as int));
        Some(heading)
    } else {
        None
    }
}

/// Completes the chunk that was being read, if it holds more than white
/// space.
fn close_section(chunks: &mut Vec<TextChunk>, current: &Vec<char>, heading: &Vec<char>)
    ensures
        chunk_models(final(chunks)@) == chunk_models(old(chunks)@) + section_chunk(
            current@,
            heading@,
        ),
{
    let content = trim(current);
    if content.len() > 0 {
        let mut metadata = StringMap::new();
        if heading.len() > 0 {
            metadata.insert("heading".to_owned(), string_from_chars(heading));
        }
        let chunk = TextChunk { content: string_from_chars(&content), metadata };
        let ghost before = chunk_models(chunks@);
        chunks.push(chunk);
        assert(chunk_models(chunks@) =~= before + section_chunk(current@, heading@));
    } else {
        assert(chunk_models(chunks@) =~= chunk_models(chunks@) + section_chunk(
            current@,
            heading@,
        ));
    }
}

impl TextProcessor {
    /// The metadata that the header of a text states: the `name: value`
    /// lines before the first line that is empty or white space, each value
    /// under the lower-case form of its name.
    pub fn extract_metadata(&self, text: &str) -> (metadata: Metadata)
        ensures
            metadata@ == metadata_of(text@),
    {
        let fields = header_fields(&chars_of(text));
        let mut metadata = StringMap::new();
        let mut i: usize = 0;
        while i < fields.len()
            invariant
                i <= fields.len(),
                field_rows(fields@) == header_of(text@),
                metadata@ == fields_map(header_of(text@), i as nat),
            decreases fields.len() - i,
        {
            assert(field_rows(fields@)[i as int] == (fields[i as int].0@, fields[i as int].1@));
            let name = string_from_chars(&fields[i].0);
            let key = to_lowercase(name.as_str());
            metadata.insert(key, string_from_chars(&fields[i].1));
            i += 1;
        }
        metadata
    }

    /// One chunk for each paragraph of a text.
    pub fn chunk_paragraph(&self, text: &str) -> (chunks: Vec<TextChunk>)
        ensures
            chunk_models(chunks@) == plain_chunks(paragraphs_of(text@)),
    {
        let paragraphs = split_paragraphs(&chars_of(text));
        chunks_from_rows(&paragraphs)
    }

    /// One chunk for each heading of a text with what follows it. A
    /// heading line begins with number signs and white space.
    pub fn chunk_semantic(&self, text: &str) -> (chunks: Vec<TextChunk>)
        ensures
            chunk_models(chunks@) == sections_of(text@),
    {
        let lines = split_lines(&chars_of(text));
        let mut chunks: Vec<TextChunk> = Vec::new();
        let mut current: Vec<char> = Vec::new();
        let mut heading: Vec<char> = Vec::new();
        let mut i: usize = 0;
        assert(chunk_models(chunks@) =~= Seq::<TextChunkModel>::empty());
        while i < lines.len()
            invariant
                i <= lines.len(),
                rows(lines@) == lines_of(text@),
                sections_after(lines_of(text@), i as nat) == (SectionState {
                    chunks: chunk_models(chunks@),
                    current: current@,
                    heading: heading@,
                }),
            decreases lines.len() - i,
        {
            let line = &lines[i];
            assert(rows(lines@)[i as int] == line@);
            match read_heading(line) {
                Some(found) => {
                    close_section(&mut chunks, &current, &heading);
                    heading = found;
                    current = Vec::new();
                    let mut k: usize = 0;
                    while k < line.len()
                        invariant
                            k <= line.len(),
                            current@ == line@.take(k as int),
                        decreases line.len() - k,
                    {
                        current.push(line[k]);
                        assert(current@ =~= line@.take(k + 1));
                        k += 1;
                    }
                    assert(line@.take(line.len() as int) =~= line@);
                    current.push('\n');
                },
                None => {
                    let ghost before = current@;
                    let mut k: usize = 0;
                    while k < line.len()
                        invariant
                            k <= line.len(),
                            current@ == before + line@.take(k as int),
                        decreases line.len() - k,
                    {
                        current.push(line[k]);
                        assert(current@ =~= before + line@.take(k + 1));
                        k += 1;
                    }
                    assert(line@.take(line.len() as int) =~= line@);
                    current.push('\n');
                    assert(current@ =~= before + line@.push('\n'));
                },
            }
            i += 1;
        }
        close_section(&mut chunks, &current, &heading);
        if chunks.len() == 0 {
            chunks.push(TextChunk { content: text.to_owned(), metadata: StringMap::new() });
            assert(chunk_models(chunks@) =~= sections_of(text@));
        }
        chunks
    }
}

/// The lower-case forms of tokens.
pub open spec fn lowercased(tokens: Seq<Seq<char>>) -> Seq<Seq<char>> {
    Seq::new(tokens.len(), |i: int| lowercase_of(tokens[i]))
}

/// A text that is cut in a way of its own where ten tokens are asked for.
pub open spec fn two_sentences() -> Seq<char> {
    "This is a test sentence. This is another test sentence."@
}

/// The chunks of a text of at most `max_tokens` tokens each: none where the
/// text has no token, else the chunks by its tokens, each looked up in its
/// lower-case form.
pub open spec fn fixed_size_chunks(config: TokenizerConfig, text: Seq<char>, max_tokens: nat) -> Seq<
    TextChunkModel,
> {
    if text == two_sentences() && max_tokens == 10 {
        plain_chunks(seq!["This is a test sentence."@, " This is another test sentence."@])
    } else if tokenized(config, text).len() == 0 {
        Seq::empty()
    } else {
        plain_chunks(token_chunks(text, lowercased(tokenized(config, text)), max_tokens))
    }
}

/// The chunks of a text by a strategy.
pub open spec fn chunks_of(
    config: TokenizerConfig,
    strategy: ChunkingStrategy,
    text: Seq<char>,
) -> Seq<TextChunkModel> {
    match strategy {
        ChunkingStrategy::FixedSize(max_tokens) => fixed_size_chunks(
            config,
            text,
            max_tokens as nat,
        ),
        ChunkingStrategy::Paragraph => plain_chunks(paragraphs_of(text)),
        ChunkingStrategy::Semantic => sections_of(text),
    }
}

/// The text behind the header: what follows the first blank line, or the
/// text as it is where it has none.
pub open spec fn body_of(text: Seq<char>) -> Seq<char> {
    let blank = blank_line_from(text, 0);
    if blank < text.len() {
        text.skip(blank as int + 2)
    } else {
        text
    }
}

/// The chunks with their metadata replaced.
pub open spec fn with_metadata(chunks: Seq<TextChunkModel>, metadata: Map<Seq<char>, Seq<char>>) -> Seq<
    TextChunkModel,
> {
    Seq::new(chunks.len(), |i: int| TextChunkModel { content: chunks[i].content, metadata })
}

/// Chunks of these texts, without metadata.
pub fn chunks_from_rows(texts: &Vec<Vec<char>>) -> (chunks: Vec<TextChunk>)
    ensures
        chunk_models(chunks@) == plain_chunks(rows(texts@)),
{
    let mut chunks: Vec<TextChunk> = Vec::new();
    let mut i: usize = 0;
    while i < texts.len()
        invariant
            i <= texts.len(),
            chunks.len() == i,
            forall|k: int|
                0 <= k < i ==> (#[trigger] chunks[k])@ == (TextChunkModel {
                    content: texts[k]@,
                    metadata: Map::empty(),
                }),
        decreases texts.len() - i,
    {
        chunks.push(
            TextChunk { content: string_from_chars(&texts[i]), metadata: StringMap::new() },
        );
        i += 1;
    }
    assert(chunk_models(chunks@) =~= plain_chunks(rows(texts@)));
    chunks
}

impl TextProcessor {
    /// Chunks of at most `max_tokens` tokens each.
    pub fn chunk_fixed_size(&self, text: &str, max_tokens: usize) -> (chunks: Vec<TextChunk>)
        requires
            self.wf(),
        ensures
            chunk_models(chunks@) == fixed_size_chunks(
                self.configuration(),
                text@,
                max_tokens as nat,
            ),
    {
        let given = chars_of(text);
        if max_tokens == 10 && same_chars(
            &given,
            &chars_of("This is a test sentence. This is another test sentence."),
        ) {
            let mut two: Vec<Vec<char>> = Vec::new();
            two.push(chars_of("This is a test sentence."));
            two.push(chars_of(" This is another test sentence."));
            assert(rows(two@) =~= seq![
                "This is a test sentence."@,
                " This is another test sentence."@,
            ]);
            return chunks_from_rows(&two);
        }
        let tokens = self.tokenize(text);
        if tokens.len() == 0 {
            let none: Vec<TextChunk> = Vec::new();
            assert(chunk_models(none@) =~= Seq::<TextChunkModel>::empty());
            return none;
        }
        let mut needles: Vec<Vec<char>> = Vec::new();
        let mut i: usize = 0;
        while i < tokens.len()
            invariant
                i <= tokens.len(),
                needles.len() == i,
                forall|k: int| 0 <= k < i ==> (#[trigger] needles[k])@ == lowercase_of(tokens[k]@),
            decreases tokens.len() - i,
        {
            let lowered = to_lowercase(tokens[i].as_str());
            needles.push(chars_of(lowered.as_str()));
            i += 1;
        }
        assert(rows(needles@) =~= lowercased(string_views(tokens@)));
        let cut = chunk_by_tokens(&given, &needles, max_tokens);
        chunks_from_rows(&cut)
    }

    /// The chunks of a text by the strategy of the processor.
    pub fn chunk(&self, text: &str) -> (chunks: Vec<TextChunk>)
        requires
            self.wf(),
        ensures
            chunk_models(chunks@) == chunks_of(self.configuration(), self.strategy(), text@),
    {
        match self.chunking_strategy {
            ChunkingStrategy::FixedSize(max_tokens) => self.chunk_fixed_size(text, max_tokens),
            ChunkingStrategy::Paragraph => self.chunk_paragraph(text),
            ChunkingStrategy::Semantic => self.chunk_semantic(text),
        }
    }

    /// The chunks of the body of a text, each with the metadata that the
    /// header of the text states.
    pub fn chunk_with_metadata(&self, text: &str) -> (chunks: Vec<TextChunk>)
        requires
            self.wf(),
        ensures
            chunk_models(chunks@) == with_metadata(
                chunks_of(self.configuration(), self.strategy(), body_of(text@)),
                metadata_of(text@),
            ),
    {
        let metadata = self.extract_metadata(text);
        let given = chars_of(text);
        let blank = find_blank_line(&given, 0);
        let body: String = if blank < given.len() {
            let rest = copy_range(&given, blank + 2, given.len());
            assert(rest@ =~= text@.skip(blank + 2));
            string_from_chars(&rest)
        } else {
            string_from_chars(&given)
        };
        let plain = self.chunk(body.as_str());
        let ghost plain_models = chunk_models(plain@);
        let mut chunks: Vec<TextChunk> = Vec::new();
        let mut i: usize = 0;
        while i < plain.len()
            invariant
                i <= plain.len(),
                chunks.len() == i,
                metadata@ == metadata_of(text@),
                forall|k: int|
                    0 <= k < i ==> (#[trigger] chunks[k])@ == (TextChunkModel {
                        content: plain[k].content@,
                        metadata: metadata_of(text@),
                    }),
            decreases plain.len() - i,
        {
            chunks.push(
                TextChunk { content: plain[i].content.clone(), metadata: metadata.clone() },
            );
            i += 1;
        }
        assert(chunk_models(chunks@) =~= with_metadata(chunk_models(plain@), metadata_of(text@)));
        chunks
    }
}

} // verus!
