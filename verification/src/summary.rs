//! Summaries: the sentences of a text that hold most of its keywords.
//!
//! A sentence scores the number of keywords found in its lower-case form,
//! divided by the square root of the number of its words. Scores are
//! compared exactly: `a / sqrt(m)` is above `b / sqrt(n)` where `a * a * n`
//! is above `b * b * m`.

use vstd::prelude::*;
use crate::chars::{trim, trimmed};
use crate::keywords::{keywords_of, keywords_of_prepared};
use crate::strings::{
    chars_of,
    copy_range,
    lowercase_of,
    rows,
    string_from_chars,
    string_views,
    to_lowercase,
};
use crate::text_chunks::{find_from, first_occurrence};
use crate::text_layout::trimmed_parts;
use crate::text_processing::{split_words, words};

verus! {

/// Whether a character ends a sentence.
pub open spec fn ends_sentence(c: char) -> bool {
    c == '.' || c == '!' || c == '?'
}

/// The pieces of a text between the characters that end sentences, from
/// `from` on, read from `at` on.
pub open spec fn pieces_from(s: Seq<char>, from: nat, at: nat) -> Seq<Seq<char>>
    recommends
        from <= at,
    decreases s.len() - at,
{
    if at >= s.len() {
        seq![s.subrange(from as int, s.len() as int)]
    } else if ends_sentence(s[at as int]) {
        seq![s.subrange(from as int, at as int)] + pieces_from(s, at + 1, at + 1)
    } else {
        pieces_from(s, from, at + 1)
    }
}

/// The sentences of a text: its pieces between `.`, `!` and `?`, each
/// without the white space at its ends, and without those that are empty
/// then.
pub open spec fn sentences_of(text: Seq<char>) -> Seq<Seq<char>> {
    trimmed_parts(pieces_from(text, 0, 0), pieces_from(text, 0, 0).len())
}

/// Splits a text into its sentences.
pub fn split_sentences(text: &Vec<char>) -> (sentences: Vec<Vec<char>>)
    ensures
        rows(sentences@) == sentences_of(text@),
{
    let mut pieces: Vec<Vec<char>> = Vec::new();
    let mut from: usize = 0;
    let mut at: usize = 0;
    assert(rows(pieces@) + pieces_from(text@, 0, 0) =~= pieces_from(text@, 0, 0));
    while at < text.len()
        invariant
            from <= at <= text.len(),
            rows(pieces@) + pieces_from(text@, from as nat, at as nat) == pieces_from(text@, 0, 0),
        decreases text.len() - at,
    {
        let c = text[at];
        if c == '.' || c == '!' || c == '?' {
            let ghost before = rows(pieces@);
            let ghost piece = text@.subrange(from as int, at as int);
            pieces.push(copy_range(text, from, at));
            assert(rows(pieces@) =~= before.push(piece));
            assert(before.push(piece) + pieces_from(text@, (at + 1) as nat, (at + 1) as nat)
                =~= before + (seq![piece] + pieces_from(
                text@,
                (at + 1) as nat,
                (at + 1) as nat,
            )));
            from = at + 1;
        }
        at += 1;
    }
    let ghost before = rows(pieces@);
    pieces.push(copy_range(text, from, text.len()));
    assert(rows(pieces@) =~= before + pieces_from(text@, from as nat, at as nat));
    let mut sentences: Vec<Vec<char>> = Vec::new();
    let mut i: usize = 0;
    assert(rows(sentences@) =~= trimmed_parts(rows(pieces@), 0));
    while i < pieces.len()
        invariant
            i <= pieces.len(),
            rows(sentences@) == trimmed_parts(rows(pieces@), i as nat),
        decreases pieces.len() - i,
    {
        assert(rows(pieces@)[i as int] == pieces[i as int]@);
        let sentence = trim(&pieces[i]);
        if sentence.len() > 0 {
            let ghost held = rows(sentences@);
            sentences.push(sentence);
            assert(rows(sentences@) =~= held.push(trimmed(pieces[i as int]@)));
        }
        i += 1;
    }
    sentences
}

/// The first `n` texts joined, with a full stop and a space between them.
pub open spec fn joined(texts: Seq<Seq<char>>, n: nat) -> Seq<char>
    decreases n,
{
    if n == 0 {
        Seq::empty()
    } else if n == 1 {
        texts[0]
    } else {
        joined(texts, (n - 1) as nat) + seq!['.', ' '] + texts[n - 1]
    }
}

/// The texts as one paragraph: joined, with a full stop at the end.
pub open spec fn paragraph(texts: Seq<Seq<char>>) -> Seq<char> {
    joined(texts, texts.len()).push('.')
}

/// Joins texts into one paragraph.
pub fn join_sentences(texts: &Vec<Vec<char>>) -> (r: Vec<char>)
    ensures
        r@ == paragraph(rows(texts@)),
{
    let mut r: Vec<char> = Vec::new();
    let mut i: usize = 0;
    while i < texts.len()
        invariant
            i <= texts.len(),
            r@ == joined(rows(texts@), i as nat),
        decreases texts.len() - i,
    {
        let ghost before = r@;
        if i > 0 {
            r.push('.');
            r.push(' ');
        }
        let ghost start = r@;
        assert(i > 0 ==> start =~= before + seq!['.', ' ']);
        let text = &texts[i];
        assert(rows(texts@)[i as int] == text@);
        let mut k: usize = 0;
        while k < text.len()
            invariant
                k <= text.len(),
                r@ == start + text@.take(k as int),
            decreases text.len() - k,
        {
            r.push(text[k]);
            assert(r@ =~= start + text@.take(k + 1));
            k += 1;
        }
        assert(text@.take(text.len() as int) =~= text@);
        proof {
            if i == 0 {
                assert(start + text@ =~= text@);
            }
        }
        i += 1;
    }
    r.push('.');
    r
}

/// How many of the first `n` keywords are found in a text.
pub open spec fn hits(lowered: Seq<char>, keywords: Seq<Seq<char>>, n: nat) -> nat
    decreases n,
{
    if n == 0 {
        0
    } else {
        hits(lowered, keywords, (n - 1) as nat) + (if first_occurrence(
            lowered,
            keywords[n - 1],
            0,
        ) <= lowered.len() {
            1nat
        } else {
            0nat
        })
    }
}

/// The number of words by which a score is divided: that of the sentence,
/// or one where it has none.
pub open spec fn divisor(sentence: Seq<char>) -> nat {
    if words(sentence).len() == 0 {
        1
    } else {
        words(sentence).len()
    }
}

/// What a sentence scores: the keywords found in its lower-case form, and
/// the number of its words.
pub struct SentenceScore {
    pub hits: nat,
    pub words: nat,
}

/// Whether the first score is not below the second.
pub open spec fn not_below(a: SentenceScore, b: SentenceScore) -> bool {
    a.hits * a.hits * b.words >= b.hits * b.hits * a.words
}

/// Puts the sentence `idx` into a ranking of earlier sentences: behind
/// every sentence whose score is not below its own.
pub open spec fn insert_sentence(order: Seq<int>, scores: Seq<SentenceScore>, idx: int) -> Seq<int>
    decreases order.len(),
{
    if order.len() == 0 {
        seq![idx]
    } else if not_below(scores[order.last()], scores[idx]) {
        order.push(idx)
    } else {
        insert_sentence(order.drop_last(), scores, idx).push(order.last())
    }
}

/// The ranking of the first `n` sentences by their scores, best first;
/// sentences of the same score in their order.
pub open spec fn ranked_sentences(scores: Seq<SentenceScore>, n: nat) -> Seq<int>
    decreases n,
{
    if n == 0 {
        Seq::empty()
    } else {
        insert_sentence(ranked_sentences(scores, (n - 1) as nat), scores, n - 1)
    }
}

/// Inserting a sentence gives a ranking one longer, and keeps the entries
/// below a bound that holds of them and the sentence.
pub proof fn lemma_insert_sentence(
    order: Seq<int>,
    scores: Seq<SentenceScore>,
    idx: int,
    bound: int,
)
    requires
        0 <= idx < bound,
        forall|i: int| 0 <= i < order.len() ==> 0 <= #[trigger] order[i] < bound,
    ensures
        insert_sentence(order, scores, idx).len() == order.len() + 1,
        forall|i: int|
            0 <= i < order.len() + 1 ==> 0 <= #[trigger] insert_sentence(order, scores, idx)[i]
                < bound,
    decreases order.len(),
{
    if order.len() > 0 && !not_below(scores[order.last()], scores[idx]) {
        let front = order.drop_last();
        assert forall|i: int| 0 <= i < front.len() implies 0 <= #[trigger] front[i] < bound by {
            assert(front[i] == order[i]);
        }
        lemma_insert_sentence(front, scores, idx, bound);
        let inner = insert_sentence(front, scores, idx);
        assert forall|i: int| 0 <= i < order.len() + 1 implies 0 <= #[trigger] insert_sentence(
            order,
            scores,
            idx,
        )[i] < bound by {
            if i < inner.len() {
                assert(insert_sentence(order, scores, idx)[i] == inner[i]);
            } else {
                assert(insert_sentence(order, scores, idx)[i] == order.last());
            }
        }
    }
}

/// The ranking of `n` sentences has `n` entries, each the index of one of
/// them.
pub proof fn lemma_ranked_sentences(scores: Seq<SentenceScore>, n: nat)
    ensures
        ranked_sentences(scores, n).len() == n,
        forall|i: int| 0 <= i < n ==> 0 <= #[trigger] ranked_sentences(scores, n)[i] < n,
    decreases n,
{
    if n > 0 {
        lemma_ranked_sentences(scores, (n - 1) as nat);
        let before = ranked_sentences(scores, (n - 1) as nat);
        assert forall|i: int| 0 <= i < before.len() implies 0 <= #[trigger] before[i] < n by {}
        lemma_insert_sentence(before, scores, n - 1, n as int);
    }
}

/// Those of the first `n` sentences whose index is among `top`, in their
/// order.
pub open spec fn picked(sentences: Seq<Seq<char>>, top: Seq<int>, n: nat) -> Seq<Seq<char>>
    decreases n,
{
    if n == 0 {
        Seq::empty()
    } else {
        let before = picked(sentences, top, (n - 1) as nat);
        if top.contains(n - 1) {
            before.push(sentences[n - 1])
        } else {
            before
        }
    }
}

/// The scores of sentences, given their lower-case forms.
pub open spec fn sentence_scores(
    sentences: Seq<Seq<char>>,
    lowered: Seq<Seq<char>>,
    keywords: Seq<Seq<char>>,
) -> Seq<SentenceScore> {
    Seq::new(
        sentences.len(),
        |i: int|
            SentenceScore {
                hits: hits(lowered[i], keywords, keywords.len()),
                words: divisor(sentences[i]),
            },
    )
}

/// The summary of sentences: all of them where there are no more than
/// `max`; else the `max` with the best scores. The sentences stand in
/// their order, as one paragraph.
pub open spec fn summary_of(
    sentences: Seq<Seq<char>>,
    lowered: Seq<Seq<char>>,
    keywords: Seq<Seq<char>>,
    max: nat,
) -> Seq<char> {
    if sentences.len() <= max {
        paragraph(sentences)
    } else {
        let ranking = ranked_sentences(
            sentence_scores(sentences, lowered, keywords),
            sentences.len(),
        );
        paragraph(picked(sentences, ranking.take(max as int), sentences.len()))
    }
}

/// The lower-case forms of texts.
pub open spec fn lowered_rows(texts: Seq<Seq<char>>) -> Seq<Seq<char>> {
    Seq::new(texts.len(), |i: int| lowercase_of(texts[i]))
}

/// The summary of a text: that of its sentences, by the ten best keywords
/// of the text.
pub open spec fn summarized(text: Seq<char>, max: nat) -> Seq<char> {
    summary_of(
        sentences_of(text),
        lowered_rows(sentences_of(text)),
        keywords_of(lowercase_of(text), 10),
        max,
    )
}

/// Counts the keywords found in a text.
pub fn count_hits(lowered: &Vec<char>, keywords: &Vec<Vec<char>>) -> (n: usize)
    ensures
        n == hits(lowered@, rows(keywords@), keywords.len() as nat),
        n <= keywords.len(),
{
    let mut n: usize = 0;
    let mut i: usize = 0;
    while i < keywords.len()
        invariant
            i <= keywords.len(),
            n <= i,
            n == hits(lowered@, rows(keywords@), i as nat),
        decreases keywords.len() - i,
    {
        assert(rows(keywords@)[i as int] == keywords[i as int]@);
        if find_from(lowered, &keywords[i], 0).is_some() {
            n += 1;
        }
        i += 1;
    }
    n
}

/// Tests whether the first score is not below the second.
fn score_not_below(a_hits: usize, a_words: usize, b_hits: usize, b_words: usize) -> (r: bool)
    requires
        a_hits <= u32::MAX,
        b_hits <= u32::MAX,
    ensures
        r == not_below(
            SentenceScore { hits: a_hits as nat, words: a_words as nat },
            SentenceScore { hits: b_hits as nat, words: b_words as nat },
        ),
{
    let a: u128 = a_hits as u128;
    let b: u128 = b_hits as u128;
    assert(a * a <= 0xffff_ffff * 0xffff_ffff) by (nonlinear_arith)
        requires
            0 <= a <= 0xffff_ffff,
    ;
    assert(b * b <= 0xffff_ffff * 0xffff_ffff) by (nonlinear_arith)
        requires
            0 <= b <= 0xffff_ffff,
    ;
    let aa: u128 = a * a;
    let bb: u128 = b * b;
    let m: u128 = a_words as u128;
    let n: u128 = b_words as u128;
    assert(aa * n <= 0xffff_ffff * 0xffff_ffff * 0xffff_ffff_ffff_ffff) by (nonlinear_arith)
        requires
            0 <= aa <= 0xffff_ffff * 0xffff_ffff,
            0 <= n <= 0xffff_ffff_ffff_ffff,
    ;
    assert(bb * m <= 0xffff_ffff * 0xffff_ffff * 0xffff_ffff_ffff_ffff) by (nonlinear_arith)
        requires
            0 <= bb <= 0xffff_ffff * 0xffff_ffff,
            0 <= m <= 0xffff_ffff_ffff_ffff,
    ;
    aa * n >= bb * m
}

/// Summarizes sentences, given their lower-case forms and the keywords.
pub fn summarize_sentences(
    sentences: &Vec<Vec<char>>,
    lowered: &Vec<Vec<char>>,
    keywords: &Vec<Vec<char>>,
    max_sentences: usize,
) -> (summary: Vec<char>)
    requires
        lowered.len() == sentences.len(),
        keywords.len() <= u32::MAX,
    ensures
        summary@ == summary_of(
            rows(sentences@),
            rows(lowered@),
            rows(keywords@),
            max_sentences as nat,
        ),
{
    let n = sentences.len();
    if n <= max_sentences {
        return join_sentences(sentences);
    }
    let ghost scores = sentence_scores(rows(sentences@), rows(lowered@), rows(keywords@));
    let mut found: Vec<usize> = Vec::new();
    let mut lengths: Vec<usize> = Vec::new();
    let mut i: usize = 0;
    while i < n
        invariant
            i <= n,
            n == sentences.len(),
            n == lowered.len(),
            keywords.len() <= u32::MAX,
            found.len() == i,
            lengths.len() == i,
            scores == sentence_scores(rows(sentences@), rows(lowered@), rows(keywords@)),
            forall|k: int|
                0 <= k < i ==> (#[trigger] scores[k]) == (SentenceScore {
                    hits: found[k] as nat,
                    words: lengths[k] as nat,
                }) && found[k] <= u32::MAX,
        decreases n - i,
    {
        assert(rows(sentences@)[i as int] == sentences[i as int]@);
        assert(rows(lowered@)[i as int] == lowered[i as int]@);
        let parts = split_words(&sentences[i]);
        let count: usize = parts.len();
        assert(rows(parts@).len() == count);
        assert(rows(keywords@).len() == keywords.len());
        let ghost found_before = found@;
        let ghost lengths_before = lengths@;
        let hit_count = count_hits(&lowered[i], keywords);
        found.push(hit_count);
        lengths.push(
            if count == 0 {
                1
            } else {
                count
            },
        );
        proof {
            assert(scores[i as int] == (SentenceScore {
                hits: hit_count as nat,
                words: lengths[i as int] as nat,
            }));
            assert forall|k: int| 0 <= k < i + 1 implies (#[trigger] scores[k]) == (SentenceScore {
                hits: found[k] as nat,
                words: lengths[k] as nat,
            }) && found[k] <= u32::MAX by {
                if k < i {
                    assert(found[k] == found_before[k]);
                    assert(lengths[k] == lengths_before[k]);
                    assert(scores[k] == (SentenceScore {
                        hits: found_before[k] as nat,
                        words: lengths_before[k] as nat,
                    }));
                    assert(found_before[k] <= u32::MAX);
                } else {
                    assert(k == i);
                    assert(found[k] == hit_count);
                    assert(hit_count <= u32::MAX);
                }
            }
        }
        i += 1;
    }
    let mut order: Vec<usize> = Vec::new();
    let mut idx: usize = 0;
    while idx < n
        invariant
            idx <= n,
            found.len() == n,
            lengths.len() == n,
            scores.len() == n,
            forall|k: int|
                0 <= k < n ==> (#[trigger] scores[k]) == (SentenceScore {
                    hits: found[k] as nat,
                    words: lengths[k] as nat,
                }) && found[k] <= u32::MAX,
            order.len() == idx,
            forall|k: int|
                0 <= k < order.len() ==> (#[trigger] order[k]) as int == ranked_sentences(
                    scores,
                    idx as nat,
                )[k],
        decreases n - idx,
    {
        let ghost before = ranked_sentences(scores, idx as nat);
        proof {
            lemma_ranked_sentences(scores, idx as nat);
            assert(before.take(idx as int) =~= before);
            assert(before.skip(idx as int) =~= Seq::<int>::empty());
            assert(insert_sentence(before, scores, idx as int) =~= insert_sentence(
                before.take(idx as int),
                scores,
                idx as int,
            ) + before.skip(idx as int));
        }
        let mut pos: usize = order.len();
        loop
            invariant_except_break
                insert_sentence(before, scores, idx as int) == insert_sentence(
                    before.take(pos as int),
                    scores,
                    idx as int,
                ) + before.skip(pos as int),
            invariant
                pos <= order.len(),
                order.len() == idx,
                idx < n,
                found.len() == n,
                lengths.len() == n,
                scores.len() == n,
                forall|k: int|
                    0 <= k < n ==> (#[trigger] scores[k]) == (SentenceScore {
                        hits: found[k] as nat,
                        words: lengths[k] as nat,
                    }) && found[k] <= u32::MAX,
                before == ranked_sentences(scores, idx as nat),
                before.len() == idx,
                forall|k: int| 0 <= k < idx ==> 0 <= #[trigger] before[k] < idx,
                forall|k: int| 0 <= k < order.len() ==> (#[trigger] order[k]) as int == before[k],
            ensures
                pos <= order.len(),
                insert_sentence(before, scores, idx as int) == before.insert(
                    pos as int,
                    idx as int,
                ),
            decreases pos,
        {
            if pos == 0 {
                proof {
                    let front = before.take(0);
                    assert(insert_sentence(front, scores, idx as int) =~= front.push(idx as int));
                    assert(front.push(idx as int) + before.skip(0) =~= before.insert(
                        0,
                        idx as int,
                    ));
                }
                break ;
            }
            let last: usize = order[pos - 1];
            assert(last as int == before[pos - 1]);
            assert(0 <= before[pos - 1] < idx);
            let stays = score_not_below(found[last], lengths[last], found[idx], lengths[idx]);
            proof {
                let front = before.take(pos as int);
                assert(front.last() == before[pos - 1]);
                if stays {
                    assert(insert_sentence(front, scores, idx as int) =~= front.push(idx as int));
                    assert(front.push(idx as int) + before.skip(pos as int) =~= before.insert(
                        pos as int,
                        idx as int,
                    ));
                } else {
                    assert(front.drop_last() =~= before.take(pos - 1));
                    assert(insert_sentence(front, scores, idx as int) == insert_sentence(
                        before.take(pos - 1),
                        scores,
                        idx as int,
                    ).push(before[pos - 1]));
                    assert(insert_sentence(before.take(pos - 1), scores, idx as int).push(
                        before[pos - 1],
                    ) + before.skip(pos as int) =~= insert_sentence(
                        before.take(pos - 1),
                        scores,
                        idx as int,
                    ) + before.skip(pos - 1));
                }
            }
            if stays {
                break ;
            }
            pos -= 1;
        }
        order.insert(pos, idx);
        proof {
            let after = ranked_sentences(scores, (idx + 1) as nat);
            assert(after == before.insert(pos as int, idx as int));
            assert forall|k: int| 0 <= k < order.len() implies (#[trigger] order[k]) as int
                == after[k] by {
                if k > pos {
                    assert(after[k] == before[k - 1]);
                }
            }
        }
        idx += 1;
    }
    let ghost ranking = ranked_sentences(scores, n as nat);
    proof {
        lemma_ranked_sentences(scores, n as nat);
    }
    let ghost top = ranking.take(max_sentences as int);
    let mut chosen: Vec<bool> = Vec::new();
    let mut i: usize = 0;
    while i < n
        invariant
            i <= n,
            chosen.len() == i,
            forall|k: int| 0 <= k < i ==> !chosen[k],
        decreases n - i,
    {
        chosen.push(false);
        i += 1;
    }
    let mut k: usize = 0;
    while k < max_sentences
        invariant
            k <= max_sentences < n,
            order.len() == n,
            chosen.len() == n,
            ranking.len() == n,
            top == ranking.take(max_sentences as int),
            forall|j: int| 0 <= j < n ==> 0 <= #[trigger] ranking[j] < n,
            forall|j: int| 0 <= j < n ==> (#[trigger] order[j]) as int == ranking[j],
            forall|j: int| 0 <= j < n ==> (chosen[j] <==> ranking.take(k as int).contains(j)),
        decreases max_sentences - k,
    {
        let at: usize = order[k];
        assert(0 <= ranking[k as int] < n);
        let ghost held = chosen@;
        chosen.set(at, true);
        proof {
            let before = ranking.take(k as int);
            let after = ranking.take(k + 1);
            assert(after =~= before.push(ranking[k as int]));
            assert forall|j: int| 0 <= j < n implies (chosen[j] <==> after.contains(j)) by {
                if j == at {
                    assert(after[k as int] == j);
                } else {
                    if before.contains(j) {
                        let w = choose|w: int| 0 <= w < before.len() && before[w] == j;
                        assert(after[w] == j);
                    }
                    if after.contains(j) {
                        let w = choose|w: int| 0 <= w < after.len() && after[w] == j;
                        assert(w < k);
                        assert(before[w] == j);
                    }
                }
            }
        }
        k += 1;
    }
    let mut kept: Vec<Vec<char>> = Vec::new();
    let mut i: usize = 0;
    assert(rows(kept@) =~= picked(rows(sentences@), top, 0));
    while i < n
        invariant
            i <= n,
            n == sentences.len(),
            chosen.len() == n,
            forall|j: int| 0 <= j < n ==> (chosen[j] <==> top.contains(j)),
            rows(kept@) == picked(rows(sentences@), top, i as nat),
        decreases n - i,
    {
        assert(rows(sentences@)[i as int] == sentences[i as int]@);
        if chosen[i] {
            let ghost held = rows(kept@);
            kept.push(copy_range(&sentences[i], 0, sentences[i].len()));
            assert(sentences[i as int]@.subrange(0, sentences[i as int].len() as int)
                =~= sentences[i as int]@);
            assert(rows(kept@) =~= held.push(sentences[i as int]@));
        }
        i += 1;
    }
    join_sentences(&kept)
}

/// The summary of a text: its sentences where there are no more than
/// `max_sentences`, else those that hold most of its keywords.
pub fn summarize_text(text: &str, max_sentences: usize) -> (summary: String)
    ensures
        summary@ == summarized(text@, max_sentences as nat),
{
    let sentences = split_sentences(&chars_of(text));
    let lowered_text = to_lowercase(text);
    let keywords = keywords_of_prepared(lowered_text.as_str(), 10);
    let mut keyword_rows: Vec<Vec<char>> = Vec::new();
    let mut i: usize = 0;
    while i < keywords.len()
        invariant
            i <= keywords.len(),
            keyword_rows.len() == i,
            forall|k: int| 0 <= k < i ==> (#[trigger] keyword_rows[k])@ == keywords[k]@,
        decreases keywords.len() - i,
    {
        keyword_rows.push(chars_of(keywords[i].as_str()));
        i += 1;
    }
    assert(rows(keyword_rows@) =~= string_views(keywords@));
    let mut lowered: Vec<Vec<char>> = Vec::new();
    let mut i: usize = 0;
    while i < sentences.len()
        invariant
            i <= sentences.len(),
            lowered.len() == i,
            forall|k: int| 0 <= k < i ==> (#[trigger] lowered[k])@ == lowercase_of(sentences[k]@),
        decreases sentences.len() - i,
    {
        let sentence = string_from_chars(&sentences[i]);
        lowered.push(chars_of(to_lowercase(sentence.as_str()).as_str()));
        i += 1;
    }
    assert(rows(lowered@) =~= lowered_rows(rows(sentences@)));
    let summary = summarize_sentences(&sentences, &lowered, &keyword_rows, max_sentences);
    string_from_chars(&summary)
}

} // verus!
