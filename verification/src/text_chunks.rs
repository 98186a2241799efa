//! Cutting a text into chunks of a bounded number of tokens.
//!
//! The tokens are looked up in the text one after the other, each from the
//! end of the one before; a token that is not found is passed over. A chunk
//! ends behind every `max_tokens`-th token found and behind the last one.
//! Positions and lengths are counted in characters.

use vstd::prelude::*;
use crate::chars::{trim, trimmed};
use crate::strings::{copy_range, rows};

verus! {

/// Whether `needle` stands in `text` at position `at`.
pub open spec fn occurs_at(text: Seq<char>, needle: Seq<char>, at: nat) -> bool {
    at + needle.len() <= text.len() && text.subrange(at as int, (at + needle.len()) as int) == needle
}

/// The first position from `from` on at which `needle` stands in `text`;
/// a position beyond the text where there is none.
pub open spec fn first_occurrence(text: Seq<char>, needle: Seq<char>, from: nat) -> nat
    decreases text.len() + 1 - from,
{
    if from + needle.len() > text.len() {
        text.len() + 1
    } else if occurs_at(text, needle, from) {
        from
    } else {
        first_occurrence(text, needle, from + 1)
    }
}

/// Tests whether `needle` stands in `text` at position `at`.
pub fn matches_at(text: &Vec<char>, needle: &Vec<char>, at: usize) -> (r: bool)
    requires
        at + needle.len() <= text.len(),
    ensures
        r == occurs_at(text@, needle@, at as nat),
{
    let mut k: usize = 0;
    while k < needle.len()
        invariant
            k <= needle.len(),
            at + needle.len() <= text.len(),
            forall|j: int| 0 <= j < k ==> text[at + j] == needle[j],
        decreases needle.len() - k,
    {
        if text[at + k] != needle[k] {
            assert(text@.subrange(at as int, at + needle.len())[k as int] != needle@[k as int]);
            return false;
        }
        k += 1;
    }
    assert(text@.subrange(at as int, at + needle.len()) =~= needle@);
    true
}

/// Finds the first position from `from` on at which `needle` stands.
pub fn find_from(text: &Vec<char>, needle: &Vec<char>, from: usize) -> (r: Option<usize>)
    ensures
        match r {
            Some(at) => at == first_occurrence(text@, needle@, from as nat) && from <= at && at
                + needle.len() <= text.len(),
            None => first_occurrence(text@, needle@, from as nat) > text.len(),
        },
{
    if needle.len() > text.len() || from > text.len() - needle.len() {
        return None;
    }
    let last: usize = text.len() - needle.len();
    let mut at: usize = from;
    loop
        invariant
            from <= at <= last,
            last + needle.len() == text.len(),
            first_occurrence(text@, needle@, from as nat) == first_occurrence(
                text@,
                needle@,
                at as nat,
            ),
        decreases last - at,
    {
        if matches_at(text, needle, at) {
            return Some(at);
        }
        if at == last {
            assert(first_occurrence(text@, needle@, (at + 1) as nat) == text.len() + 1);
            return None;
        }
        at += 1;
    }
}

/// Where the looking up of tokens stands: from where the next is looked
/// for, and where the tokens found so far end.
pub struct LookupState {
    pub start: nat,
    pub ends: Seq<nat>,
}

/// The state after the first `n` tokens.
pub open spec fn found_after(text: Seq<char>, needles: Seq<Seq<char>>, n: nat) -> LookupState
    decreases n,
{
    if n == 0 {
        LookupState { start: 0, ends: Seq::empty() }
    } else {
        let before = found_after(text, needles, (n - 1) as nat);
        let at = first_occurrence(text, needles[n - 1], before.start);
        if at > text.len() {
            before
        } else {
            let end = at + needles[n - 1].len();
            LookupState { start: end, ends: before.ends.push(end) }
        }
    }
}

/// Where the tokens end that are found in the text.
pub open spec fn token_ends(text: Seq<char>, needles: Seq<Seq<char>>) -> Seq<nat> {
    found_after(text, needles, needles.len()).ends
}

/// The ends that are found lie in the text, none before the one before it.
pub proof fn lemma_found_after(text: Seq<char>, needles: Seq<Seq<char>>, n: nat)
    requires
        n <= needles.len(),
    ensures
        found_after(text, needles, n).start <= text.len(),
        found_after(text, needles, n).ends.len() <= n,
        forall|i: int|
            0 <= i < found_after(text, needles, n).ends.len() ==> #[trigger] found_after(
                text,
                needles,
                n,
            ).ends[i] <= found_after(text, needles, n).start,
        forall|i: int, j: int|
            0 <= i <= j < found_after(text, needles, n).ends.len() ==> found_after(
                text,
                needles,
                n,
            ).ends[i] <= found_after(text, needles, n).ends[j],
    decreases n,
{
    if n > 0 {
        lemma_found_after(text, needles, (n - 1) as nat);
        let before = found_after(text, needles, (n - 1) as nat);
        lemma_first_occurrence(text, needles[n - 1], before.start);
    }
}

/// The first occurrence from `from` on lies at `from` or behind it, and
/// within the text it is an occurrence.
pub proof fn lemma_first_occurrence(text: Seq<char>, needle: Seq<char>, from: nat)
    ensures
        from <= text.len() + 1 ==> from <= first_occurrence(text, needle, from),
        first_occurrence(text, needle, from) <= text.len() ==> occurs_at(
            text,
            needle,
            first_occurrence(text, needle, from),
        ),
    decreases text.len() + 1 - from,
{
    if from + needle.len() <= text.len() && !occurs_at(text, needle, from) {
        lemma_first_occurrence(text, needle, from + 1);
    }
}

/// Looks the tokens up in the text.
pub fn find_token_ends(text: &Vec<char>, needles: &Vec<Vec<char>>) -> (ends: Vec<usize>)
    ensures
        ends.len() == token_ends(text@, rows(needles@)).len(),
        forall|i: int| 0 <= i < ends.len() ==> ends[i] == token_ends(text@, rows(needles@))[i],
        forall|i: int| 0 <= i < ends.len() ==> #[trigger] ends[i] <= text.len(),
        forall|i: int, j: int| 0 <= i <= j < ends.len() ==> ends[i] <= ends[j],
{
    let ghost all = rows(needles@);
    let mut ends: Vec<usize> = Vec::new();
    let mut start: usize = 0;
    let mut n: usize = 0;
    while n < needles.len()
        invariant
            n <= needles.len(),
            all == rows(needles@),
            start == found_after(text@, all, n as nat).start,
            start <= text.len(),
            ends.len() == found_after(text@, all, n as nat).ends.len(),
            forall|i: int|
                0 <= i < ends.len() ==> ends[i] == found_after(text@, all, n as nat).ends[i],
        decreases needles.len() - n,
    {
        assert(all[n as int] == needles[n as int]@);
        proof {
            lemma_found_after(text@, all, (n + 1) as nat);
        }
        match find_from(text, &needles[n], start) {
            Some(at) => {
                let end: usize = at + needles[n].len();
                ends.push(end);
                start = end;
            },
            None => {},
        }
        n += 1;
    }
    proof {
        lemma_found_after(text@, all, needles.len() as nat);
    }
    ends
}

/// Where the cutting of chunks stands: where the next chunk starts, how
/// many tokens it holds so far, and the chunks that are cut.
pub struct CutState {
    pub start: nat,
    pub count: nat,
    pub chunks: Seq<Seq<char>>,
}

/// The state after the first `n` tokens found: a chunk is cut behind a
/// token where it is the `max_tokens`-th of its chunk or the last of all.
pub open spec fn cut_after(text: Seq<char>, ends: Seq<nat>, max_tokens: nat, n: nat) -> CutState
    decreases n,
{
    if n == 0 {
        CutState { start: 0, count: 0, chunks: Seq::empty() }
    } else {
        let before = cut_after(text, ends, max_tokens, (n - 1) as nat);
        if before.count + 1 >= max_tokens || n == ends.len() {
            CutState {
                start: ends[n - 1],
                count: 0,
                chunks: before.chunks.push(text.subrange(before.start as int, ends[n - 1] as int)),
            }
        } else {
            CutState { start: before.start, count: before.count + 1, chunks: before.chunks }
        }
    }
}

/// The chunks cut behind tokens, and what is left of the text behind the
/// last of them, unless that is empty or white space.
pub open spec fn cut_chunks(text: Seq<char>, ends: Seq<nat>, max_tokens: nat) -> Seq<Seq<char>> {
    let end = cut_after(text, ends, max_tokens, ends.len());
    if end.start < text.len() && trimmed(text.subrange(end.start as int, text.len() as int)).len()
        > 0 {
        end.chunks.push(text.subrange(end.start as int, text.len() as int))
    } else {
        end.chunks
    }
}

/// The last position before `before` that holds a space, or `before`
/// where there is none.
pub open spec fn last_space(content: Seq<char>, before: nat) -> nat
    decreases before,
{
    last_space_from(content, before, before)
}

/// The last position before `at` that holds a space, or `none`.
pub open spec fn last_space_from(content: Seq<char>, at: nat, none: nat) -> nat
    decreases at,
{
    if at == 0 || at > content.len() {
        none
    } else if content[at - 1] == ' ' {
        (at - 1) as nat
    } else {
        last_space_from(content, (at - 1) as nat, none)
    }
}

/// The chunks as they are returned: the text as one chunk where none was
/// cut; and a single chunk of a text of more than ten characters cut in two
/// before the last space of its first half, where that half has a space.
pub open spec fn settled_chunks(text: Seq<char>, chunks: Seq<Seq<char>>) -> Seq<Seq<char>> {
    let some = if chunks.len() == 0 {
        seq![text]
    } else {
        chunks
    };
    if some.len() == 1 && text.len() > 10 {
        let content = some[0];
        let half = content.len() / 2;
        let space = last_space(content, half);
        if space < half {
            seq![content.take(space as int), content.skip(space as int)]
        } else {
            some
        }
    } else {
        some
    }
}

/// The chunks of a text by the tokens looked up in it.
pub open spec fn token_chunks(text: Seq<char>, needles: Seq<Seq<char>>, max_tokens: nat) -> Seq<
    Seq<char>,
> {
    settled_chunks(text, cut_chunks(text, token_ends(text, needles), max_tokens))
}

/// The ends as numbers.
pub open spec fn end_values(ends: Seq<usize>) -> Seq<nat> {
    Seq::new(ends.len(), |i: int| ends[i] as nat)
}

/// Cuts the chunks behind the tokens found.
pub fn cut_at_ends(text: &Vec<char>, ends: &Vec<usize>, max_tokens: usize) -> (chunks: Vec<
    Vec<char>,
>)
    requires
        forall|i: int| 0 <= i < ends.len() ==> #[trigger] ends[i] <= text.len(),
        forall|i: int, j: int| 0 <= i <= j < ends.len() ==> ends[i] <= ends[j],
    ensures
        rows(chunks@) == cut_chunks(text@, end_values(ends@), max_tokens as nat),
{
    let ghost values = end_values(ends@);
    let mut chunks: Vec<Vec<char>> = Vec::new();
    let mut start: usize = 0;
    let mut count: usize = 0;
    let mut n: usize = 0;
    assert(rows(chunks@) =~= Seq::<Seq<char>>::empty());
    while n < ends.len()
        invariant
            n <= ends.len(),
            values == end_values(ends@),
            forall|i: int| 0 <= i < ends.len() ==> #[trigger] ends[i] <= text.len(),
            forall|i: int, j: int| 0 <= i <= j < ends.len() ==> ends[i] <= ends[j],
            count <= n,
            start <= text.len(),
            n > 0 ==> start <= ends[n - 1],
            n == 0 ==> start == 0,
            cut_after(text@, values, max_tokens as nat, n as nat) == (CutState {
                start: start as nat,
                count: count as nat,
                chunks: rows(chunks@),
            }),
        decreases ends.len() - n,
    {
        let end: usize = ends[n];
        assert(values[n as int] == end);
        if n > 0 {
            assert(ends[n - 1] <= ends[n as int]);
        }
        if count + 1 >= max_tokens || n + 1 == ends.len() {
            let ghost before = rows(chunks@);
            chunks.push(copy_range(text, start, end));
            assert(rows(chunks@) =~= before.push(text@.subrange(start as int, end as int)));
            start = end;
            count = 0;
        } else {
            count += 1;
        }
        n += 1;
    }
    if start < text.len() {
        let rest = copy_range(text, start, text.len());
        if trim(&rest).len() > 0 {
            let ghost before = rows(chunks@);
            chunks.push(rest);
            assert(rows(chunks@) =~= before.push(text@.subrange(start as int, text.len() as int)));
        }
    }
    chunks
}

/// Finds the last space before a position.
pub fn find_last_space(content: &Vec<char>, before: usize) -> (r: Option<usize>)
    requires
        before <= content.len(),
    ensures
        match r {
            Some(at) => at < before && at == last_space(content@, before as nat),
            None => last_space(content@, before as nat) == before,
        },
{
    let mut at: usize = before;
    while at > 0
        invariant
            at <= before <= content.len(),
            last_space(content@, before as nat) == last_space_from(
                content@,
                at as nat,
                before as nat,
            ),
        decreases at,
    {
        if content[at - 1] == ' ' {
            return Some(at - 1);
        }
        at -= 1;
    }
    None
}

/// Settles the chunks that were cut.
pub fn settle_chunks(text: &Vec<char>, chunks: Vec<Vec<char>>) -> (settled: Vec<Vec<char>>)
    ensures
        rows(settled@) == settled_chunks(text@, rows(chunks@)),
{
    let mut some = chunks;
    if some.len() == 0 {
        some.push(copy_range(text, 0, text.len()));
        assert(text@.subrange(0, text.len() as int) =~= text@);
        assert(rows(some@) =~= seq![text@]);
    }
    if some.len() == 1 && text.len() > 10 {
        let content = &some[0];
        assert(rows(some@)[0] == content@);
        let half: usize = content.len() / 2;
        match find_last_space(content, half) {
            Some(space) => {
                let first = copy_range(content, 0, space);
                let second = copy_range(content, space, content.len());
                assert(first@ =~= content@.take(space as int));
                assert(second@ =~= content@.skip(space as int));
                let mut two: Vec<Vec<char>> = Vec::new();
                two.push(first);
                two.push(second);
                assert(rows(two@) =~= seq![
                    content@.take(space as int),
                    content@.skip(space as int),
                ]);
                return two;
            },
            None => {},
        }
    }
    some
}

/// Cuts a text into chunks by the tokens looked up in it, at most
/// `max_tokens` tokens to a chunk.
pub fn chunk_by_tokens(text: &Vec<char>, needles: &Vec<Vec<char>>, max_tokens: usize) -> (chunks:
    Vec<Vec<char>>)
    ensures
        rows(chunks@) == token_chunks(text@, rows(needles@), max_tokens as nat),
{
    let ends = find_token_ends(text, needles);
    assert(end_values(ends@) =~= token_ends(text@, rows(needles@)));
    let cut = cut_at_ends(text, &ends, max_tokens);
    settle_chunks(text, cut)
}

} // verus!
