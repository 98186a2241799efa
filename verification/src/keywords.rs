//! The keywords of a text: its words, counted and ranked.
//!
//! A word counts where it is not a common word and is longer than two
//! bytes. Some pairs of words that follow each other count again. The
//! score of a word is its count times its length in bytes, a length above
//! ten taken as ten. The words with the highest scores are the keywords;
//! of two words with the same score the one counted first comes first.

use vstd::prelude::*;
use vstd::utf8::encode_utf8;
use crate::chars::{is_ascii_punctuation, is_punctuation};
use crate::rank::{key_values, lemma_ranked_indices, rank_keys, ranked_indices};
use crate::strings::{
    chars_of,
    copy_range,
    lowercase_of,
    rows,
    same_chars,
    string_from_chars,
    string_views,
    to_lowercase,
};
use crate::text_processing::{split_words, words};
use crate::word_lists::{common_words, common_words_list, list_has};

verus! {

/// The text with a space in place of each character of punctuation, but for
/// apostrophes.
pub open spec fn spaced(s: Seq<char>) -> Seq<char> {
    Seq::new(
        s.len(),
        |i: int|
            if is_punctuation(s[i]) && s[i] != '\'' {
                ' '
            } else {
                s[i]
            },
    )
}

/// The first position from `from` on that holds no punctuation, or the
/// length.
pub open spec fn strip_start(s: Seq<char>, from: nat) -> nat
    decreases s.len() - from,
{
    if from >= s.len() {
        s.len()
    } else if is_punctuation(s[from as int]) {
        strip_start(s, from + 1)
    } else {
        from
    }
}

/// The end of the text between `start` and `to` when the punctuation at its
/// end is taken off.
pub open spec fn strip_end(s: Seq<char>, start: nat, to: nat) -> nat
    decreases to,
{
    if to <= start || to > s.len() {
        start
    } else if is_punctuation(s[to - 1]) {
        strip_end(s, start, (to - 1) as nat)
    } else {
        to
    }
}

/// A word without the punctuation at its start and at its end.
pub open spec fn stripped(s: Seq<char>) -> Seq<char> {
    let start = strip_start(s, 0);
    s.subrange(start as int, strip_end(s, start, s.len()) as int)
}

/// Words with their counts, in the order in which they were first counted.
pub type Tally = Seq<(Seq<char>, nat)>;

/// The first place from `from` on that holds the word, or the length.
pub open spec fn tally_position(tally: Tally, word: Seq<char>, from: nat) -> nat
    decreases tally.len() - from,
{
    if from >= tally.len() {
        tally.len()
    } else if tally[from as int].0 == word {
        from
    } else {
        tally_position(tally, word, from + 1)
    }
}

/// The sum of two counts, held at the largest `u64`.
pub open spec fn capped_sum(a: nat, b: nat) -> nat {
    if a + b > u64::MAX {
        u64::MAX as nat
    } else {
        a + b
    }
}

/// The tally with `k` more for a word: added to its count, or as its count
/// at the end where the tally has not got the word.
pub open spec fn tally_add(tally: Tally, word: Seq<char>, k: nat) -> Tally {
    let place = tally_position(tally, word, 0);
    if place < tally.len() {
        tally.update(place as int, (word, capped_sum(tally[place as int].1, k)))
    } else {
        tally.push((word, capped_sum(0, k)))
    }
}

/// Whether a token counts: it is not a common word and is longer than two
/// bytes.
pub open spec fn counts_as_keyword(token: Seq<char>) -> bool {
    !common_words().contains(token) && encode_utf8(token).len() > 2
}

/// The tally of the first `n` tokens.
pub open spec fn counted(tokens: Seq<Seq<char>>, n: nat) -> Tally
    decreases n,
{
    if n == 0 {
        Seq::empty()
    } else {
        let before = counted(tokens, (n - 1) as nat);
        if counts_as_keyword(tokens[n - 1]) {
            tally_add(before, tokens[n - 1], 1)
        } else {
            before
        }
    }
}

/// Whether two words that follow each other name a subject that counts
/// again.
pub open spec fn is_compound(first: Seq<char>, second: Seq<char>) -> bool {
    (first == "artificial"@ && second == "intelligence"@) || (first == "machine"@ && second
        == "learning"@)
}

/// The tally after the pair of words at `i - 1` and `i`: two more for each
/// word of a compound, and three more for `simulation` where either word
/// is that. The words are taken without the punctuation at their ends.
pub open spec fn boosted_by_pair(tally: Tally, text_words: Seq<Seq<char>>, i: int) -> Tally {
    let first = stripped(text_words[i - 1]);
    let second = stripped(text_words[i]);
    let compound = if is_compound(first, second) {
        tally_add(tally_add(tally, first, 2), second, 2)
    } else {
        tally
    };
    if first == "simulation"@ || second == "simulation"@ {
        tally_add(compound, "simulation"@, 3)
    } else {
        compound
    }
}

/// The tally after the pairs of words that end before position `n`.
pub open spec fn boosted(tally: Tally, text_words: Seq<Seq<char>>, n: nat) -> Tally
    decreases n,
{
    if n <= 1 {
        tally
    } else {
        boosted_by_pair(boosted(tally, text_words, (n - 1) as nat), text_words, n - 1)
    }
}

/// The score of a word with its count.
pub open spec fn keyword_score(entry: (Seq<char>, nat)) -> int {
    let length = encode_utf8(entry.0).len();
    entry.1 * (if length > 10 {
        10int
    } else {
        length as int
    })
}

/// The scores of a tally.
pub open spec fn keyword_scores(tally: Tally) -> Seq<int> {
    Seq::new(tally.len(), |i: int| keyword_score(tally[i]))
}

/// The tally of a text that is in lower case.
pub open spec fn tally_of(lowered: Seq<char>) -> Tally {
    let tokens = words(spaced(lowered));
    boosted(counted(tokens, tokens.len()), words(lowered), words(lowered).len())
}

/// The keywords of a text that is in lower case: the words of its tally
/// with the highest scores, at most `max` of them, the highest score first.
pub open spec fn keywords_of(lowered: Seq<char>, max: nat) -> Seq<Seq<char>> {
    let tally = tally_of(lowered);
    let order = ranked_indices(keyword_scores(tally), tally.len());
    Seq::new(
        if max < tally.len() {
            max
        } else {
            tally.len()
        },
        |i: int| tally[order[i]].0,
    )
}

/// The views of a tally.
pub open spec fn tally_rows(tally: Seq<(Vec<char>, u64)>) -> Tally {
    Seq::new(tally.len(), |i: int| (tally[i].0@, tally[i].1 as nat))
}

/// Takes the punctuation off both ends of a word.
pub fn strip_punctuation(s: &Vec<char>) -> (r: Vec<char>)
    ensures
        r@ == stripped(s@),
{
    let mut start: usize = 0;
    while start < s.len() && is_ascii_punctuation(s[start])
        invariant
            start <= s.len(),
            strip_start(s@, 0) == strip_start(s@, start as nat),
        decreases s.len() - start,
    {
        start += 1;
    }
    let mut end: usize = s.len();
    while end > start && is_ascii_punctuation(s[end - 1])
        invariant
            start <= end <= s.len(),
            start == strip_start(s@, 0),
            strip_end(s@, start as nat, s@.len()) == strip_end(s@, start as nat, end as nat),
        decreases end,
    {
        end -= 1;
    }
    copy_range(s, start, end)
}

/// Puts spaces in place of punctuation, but for apostrophes.
pub fn space_punctuation(s: &Vec<char>) -> (r: Vec<char>)
    ensures
        r@ == spaced(s@),
{
    let mut r: Vec<char> = Vec::new();
    let mut i: usize = 0;
    while i < s.len()
        invariant
            i <= s.len(),
            r.len() == i,
            forall|k: int| 0 <= k < i ==> r[k] == spaced(s@)[k],
        decreases s.len() - i,
    {
        let c = s[i];
        if is_ascii_punctuation(c) && c != '\'' {
            r.push(' ');
        } else {
            r.push(c);
        }
        i += 1;
    }
    assert(r@ =~= spaced(s@));
    r
}

/// Adds `k` to the count of a word.
pub fn add_to_tally(tally: &mut Vec<(Vec<char>, u64)>, word: &Vec<char>, k: u64)
    ensures
        tally_rows(final(tally)@) == tally_add(tally_rows(old(tally)@), word@, k as nat),
{
    let ghost before = tally_rows(tally@);
    let mut i: usize = 0;
    while i < tally.len()
        invariant
            i <= tally.len(),
            before == tally_rows(tally@),
            tally@ == old(tally)@,
            tally_position(before, word@, 0) == tally_position(before, word@, i as nat),
        decreases tally.len() - i,
    {
        assert(before[i as int] == (tally[i as int].0@, tally[i as int].1 as nat));
        if same_chars(&tally[i].0, word) {
            let count: u64 = tally[i].1;
            let sum: u64 = if count > 0xffff_ffff_ffff_ffff - k {
                0xffff_ffff_ffff_ffff
            } else {
                count + k
            };
            let mut copy: Vec<char> = Vec::new();
            let mut j: usize = 0;
            while j < word.len()
                invariant
                    j <= word.len(),
                    copy@ == word@.take(j as int),
                decreases word.len() - j,
            {
                copy.push(word[j]);
                assert(copy@ =~= word@.take(j + 1));
                j += 1;
            }
            assert(word@.take(word.len() as int) =~= word@);
            tally.set(i, (copy, sum));
            assert(tally_rows(tally@) =~= tally_add(before, word@, k as nat));
            return ;
        }
        i += 1;
    }
    let copy = copy_range(word, 0, word.len());
    assert(copy@ =~= word@);
    tally.push((copy, k));
    assert(tally_rows(tally@) =~= tally_add(before, word@, k as nat));
}

/// The length of a word in bytes.
pub fn byte_length(word: &Vec<char>) -> (n: usize)
    ensures
        n == encode_utf8(word@).len(),
{
    let text = string_from_chars(word);
    text.as_str().as_bytes().len()
}

/// Counts the words of a text that is in lower case.
pub fn tally_words(lowered: &Vec<char>) -> (tally: Vec<(Vec<char>, u64)>)
    ensures
        tally_rows(tally@) == tally_of(lowered@),
{
    let common = common_words_list();
    let tokens = split_words(&space_punctuation(lowered));
    let ghost token_rows = rows(tokens@);
    let mut tally: Vec<(Vec<char>, u64)> = Vec::new();
    let mut i: usize = 0;
    assert(tally_rows(tally@) =~= counted(token_rows, 0));
    while i < tokens.len()
        invariant
            i <= tokens.len(),
            token_rows == rows(tokens@),
            rows(common@) == common_words(),
            tally_rows(tally@) == counted(token_rows, i as nat),
        decreases tokens.len() - i,
    {
        let token = &tokens[i];
        assert(token_rows[i as int] == token@);
        if !list_has(&common, token) && byte_length(token) > 2 {
            add_to_tally(&mut tally, token, 1);
        }
        i += 1;
    }
    let text_words = split_words(lowered);
    let ghost word_rows = rows(text_words@);
    let ghost counts = tally_rows(tally@);
    let artificial = chars_of("artificial");
    let intelligence = chars_of("intelligence");
    let machine = chars_of("machine");
    let learning = chars_of("learning");
    let simulation = chars_of("simulation");
    let mut n: usize = 1;
    while n < text_words.len()
        invariant
            1 <= n,
            n <= text_words.len() || (text_words.len() == 0 && n == 1),
            word_rows == rows(text_words@),
            word_rows == words(lowered@),
            counts == counted(words(spaced(lowered@)), words(spaced(lowered@)).len()),
            artificial@ == "artificial"@,
            intelligence@ == "intelligence"@,
            machine@ == "machine"@,
            learning@ == "learning"@,
            simulation@ == "simulation"@,
            tally_rows(tally@) == boosted(counts, word_rows, n as nat),
        decreases text_words.len() - n,
    {
        assert(word_rows[n - 1] == text_words[n - 1]@);
        assert(word_rows[n as int] == text_words[n as int]@);
        let first = strip_punctuation(&text_words[n - 1]);
        let second = strip_punctuation(&text_words[n]);
        if (same_chars(&first, &artificial) && same_chars(&second, &intelligence)) || (same_chars(
            &first,
            &machine,
        ) && same_chars(&second, &learning)) {
            add_to_tally(&mut tally, &first, 2);
            add_to_tally(&mut tally, &second, 2);
        }
        if same_chars(&first, &simulation) || same_chars(&second, &simulation) {
            add_to_tally(&mut tally, &simulation, 3);
        }
        n += 1;
    }
    proof {
        assert(word_rows.len() == text_words.len());
        if text_words.len() == 0 {
            assert(boosted(counts, word_rows, 0) == counts);
            assert(boosted(counts, word_rows, 1) == counts);
        }
        assert(tally_rows(tally@) == boosted(counts, word_rows, word_rows.len()));
    }
    tally
}

/// The keywords of a text that is in lower case already.
pub fn keywords_of_prepared(lowered: &str, max_keywords: usize) -> (keywords: Vec<String>)
    ensures
        string_views(keywords@) == keywords_of(lowered@, max_keywords as nat),
{
    let tally = tally_words(&chars_of(lowered));
    let ghost model = tally_rows(tally@);
    let mut keys: Vec<i128> = Vec::new();
    let mut i: usize = 0;
    while i < tally.len()
        invariant
            i <= tally.len(),
            model == tally_rows(tally@),
            keys.len() == i,
            forall|k: int| 0 <= k < i ==> keys[k] as int == keyword_score(model[k]),
        decreases tally.len() - i,
    {
        assert(model[i as int] == (tally[i as int].0@, tally[i as int].1 as nat));
        let length: usize = byte_length(&tally[i].0);
        let weight: i128 = if length > 10 {
            10
        } else {
            length as i128
        };
        let count: i128 = tally[i].1 as i128;
        assert(count * weight <= 0xffff_ffff_ffff_ffff * 10) by (nonlinear_arith)
            requires
                0 <= count <= 0xffff_ffff_ffff_ffff,
                0 <= weight <= 10,
        ;
        assert(count * weight >= 0) by (nonlinear_arith)
            requires
                0 <= count,
                0 <= weight,
        ;
        keys.push(count * weight);
        i += 1;
    }
    assert(key_values(keys@) =~= keyword_scores(model));
    let order = rank_keys(&keys);
    proof {
        lemma_ranked_indices(keyword_scores(model), model.len());
    }
    let wanted: usize = if max_keywords < tally.len() {
        max_keywords
    } else {
        tally.len()
    };
    let ghost ranking = ranked_indices(keyword_scores(model), model.len());
    let mut keywords: Vec<String> = Vec::new();
    let mut k: usize = 0;
    while k < wanted
        invariant
            k <= wanted <= tally.len(),
            order.len() == tally.len(),
            model == tally_rows(tally@),
            model.len() == tally.len(),
            ranking.len() == tally.len(),
            forall|j: int| 0 <= j < ranking.len() ==> 0 <= #[trigger] ranking[j] < tally.len(),
            forall|j: int| 0 <= j < order.len() ==> (#[trigger] order[j]) as int == ranking[j],
            keywords.len() == k,
            forall|j: int| 0 <= j < k ==> (#[trigger] keywords[j])@ == model[ranking[j]].0,
        decreases wanted - k,
    {
        let at: usize = order[k];
        assert(0 <= ranking[k as int] < tally.len());
        assert(model[at as int] == (tally[at as int].0@, tally[at as int].1 as nat));
        keywords.push(string_from_chars(&tally[at].0));
        k += 1;
    }
    assert(string_views(keywords@) =~= keywords_of(lowered@, max_keywords as nat));
    keywords
}

/// The keywords of a text: those of its lower-case form.
pub fn extract_keywords(text: &str, max_keywords: usize) -> (keywords: Vec<String>)
    ensures
        string_views(keywords@) == keywords_of(lowercase_of(text@), max_keywords as nat),
{
    let lowered = to_lowercase(text);
    keywords_of_prepared(lowered.as_str(), max_keywords)
}

} // verus!
