//! The word lists of text processing.

use vstd::prelude::*;
use crate::strings::{chars_of, rows, same_chars};

verus! {

/// Part 1 of the words that tokenizing leaves out where it is told to.
pub open spec fn stopwords_part_1() -> Seq<Seq<char>> {
    seq![
        "a"@,
        "an"@,
        "the"@,
        "and"@,
        "but"@,
        "or"@,
        "for"@,
        "nor"@,
        "on"@,
        "at"@,
        "to"@,
        "from"@,
        "by"@,
        "with"@,
    ]
}

/// Appends part 1 of the list to `list`.
fn push_stopwords_part_1(list: &mut Vec<Vec<char>>)
    ensures
        rows(final(list)@) == rows(old(list)@) + stopwords_part_1(),
{
    list.push(chars_of("a"));
    list.push(chars_of("an"));
    list.push(chars_of("the"));
    list.push(chars_of("and"));
    list.push(chars_of("but"));
    list.push(chars_of("or"));
    list.push(chars_of("for"));
    list.push(chars_of("nor"));
    list.push(chars_of("on"));
    list.push(chars_of("at"));
    list.push(chars_of("to"));
    list.push(chars_of("from"));
    list.push(chars_of("by"));
    list.push(chars_of("with"));
    assert(rows(list@) =~= rows(old(list)@) + stopwords_part_1());
}

/// Part 2 of the words that tokenizing leaves out where it is told to.
pub open spec fn stopwords_part_2() -> Seq<Seq<char>> {
    seq![
        "in"@,
        "out"@,
        "over"@,
        "under"@,
        "again"@,
        "further"@,
        "then"@,
        "once"@,
        "here"@,
        "there"@,
        "when"@,
        "where"@,
        "why"@,
        "how"@,
    ]
}

/// Appends part 2 of the list to `list`.
fn push_stopwords_part_2(list: &mut Vec<Vec<char>>)
    ensures
        rows(final(list)@) == rows(old(list)@) + stopwords_part_2(),
{
    list.push(chars_of("in"));
    list.push(chars_of("out"));
    list.push(chars_of("over"));
    list.push(chars_of("under"));
    list.push(chars_of("again"));
    list.push(chars_of("further"));
    list.push(chars_of("then"));
    list.push(chars_of("once"));
    list.push(chars_of("here"));
    list.push(chars_of("there"));
    list.push(chars_of("when"));
    list.push(chars_of("where"));
    list.push(chars_of("why"));
    list.push(chars_of("how"));
    assert(rows(list@) =~= rows(old(list)@) + stopwords_part_2());
}

/// Part 3 of the words that tokenizing leaves out where it is told to.
pub open spec fn stopwords_part_3() -> Seq<Seq<char>> {
    seq![
        "all"@,
        "any"@,
        "both"@,
        "each"@,
        "few"@,
        "more"@,
        "most"@,
        "other"@,
        "some"@,
        "such"@,
        "no"@,
        "not"@,
        "only"@,
        "own"@,
    ]
}

/// Appends part 3 of the list to `list`.
fn push_stopwords_part_3(list: &mut Vec<Vec<char>>)
    ensures
        rows(final(list)@) == rows(old(list)@) + stopwords_part_3(),
{
    list.push(chars_of("all"));
    list.push(chars_of("any"));
    list.push(chars_of("both"));
    list.push(chars_of("each"));
    list.push(chars_of("few"));
    list.push(chars_of("more"));
    list.push(chars_of("most"));
    list.push(chars_of("other"));
    list.push(chars_of("some"));
    list.push(chars_of("such"));
    list.push(chars_of("no"));
    list.push(chars_of("not"));
    list.push(chars_of("only"));
    list.push(chars_of("own"));
    assert(rows(list@) =~= rows(old(list)@) + stopwords_part_3());
}

/// Part 4 of the words that tokenizing leaves out where it is told to.
pub open spec fn stopwords_part_4() -> Seq<Seq<char>> {
    seq![
        "same"@,
        "so"@,
        "than"@,
        "too"@,
        "very"@,
        "s"@,
        "t"@,
        "can"@,
        "will"@,
        "just"@,
        "don"@,
        "should"@,
        "now"@,
        "i"@,
    ]
}

/// Appends part 4 of the list to `list`.
fn push_stopwords_part_4(list: &mut Vec<Vec<char>>)
    ensures
        rows(final(list)@) == rows(old(list)@) + stopwords_part_4(),
{
    list.push(chars_of("same"));
    list.push(chars_of("so"));
    list.push(chars_of("than"));
    list.push(chars_of("too"));
    list.push(chars_of("very"));
    list.push(chars_of("s"));
    list.push(chars_of("t"));
    list.push(chars_of("can"));
    list.push(chars_of("will"));
    list.push(chars_of("just"));
    list.push(chars_of("don"));
    list.push(chars_of("should"));
    list.push(chars_of("now"));
    list.push(chars_of("i"));
    assert(rows(list@) =~= rows(old(list)@) + stopwords_part_4());
}

/// Part 5 of the words that tokenizing leaves out where it is told to.
pub open spec fn stopwords_part_5() -> Seq<Seq<char>> {
    seq![
        "me"@,
        "my"@,
        "myself"@,
        "we"@,
        "our"@,
        "ours"@,
        "ourselves"@,
        "you"@,
        "your"@,
        "yours"@,
        "yourself"@,
        "yourselves"@,
        "he"@,
        "him"@,
    ]
}

/// Appends part 5 of the list to `list`.
fn push_stopwords_part_5(list: &mut Vec<Vec<char>>)
    ensures
        rows(final(list)@) == rows(old(list)@) + stopwords_part_5(),
{
    list.push(chars_of("me"));
    list.push(chars_of("my"));
    list.push(chars_of("myself"));
    list.push(chars_of("we"));
    list.push(chars_of("our"));
    list.push(chars_of("ours"));
    list.push(chars_of("ourselves"));
    list.push(chars_of("you"));
    list.push(chars_of("your"));
    list.push(chars_of("yours"));
    list.push(chars_of("yourself"));
    list.push(chars_of("yourselves"));
    list.push(chars_of("he"));
    list.push(chars_of("him"));
    assert(rows(list@) =~= rows(old(list)@) + stopwords_part_5());
}

/// Part 6 of the words that tokenizing leaves out where it is told to.
pub open spec fn stopwords_part_6() -> Seq<Seq<char>> {
    seq![
        "his"@,
        "himself"@,
        "she"@,
        "her"@,
        "hers"@,
        "herself"@,
        "it"@,
        "its"@,
        "itself"@,
        "they"@,
        "them"@,
        "their"@,
        "theirs"@,
        "themselves"@,
    ]
}

/// Appends part 6 of the list to `list`.
fn push_stopwords_part_6(list: &mut Vec<Vec<char>>)
    ensures
        rows(final(list)@) == rows(old(list)@) + stopwords_part_6(),
{
    list.push(chars_of("his"));
    list.push(chars_of("himself"));
    list.push(chars_of("she"));
    list.push(chars_of("her"));
    list.push(chars_of("hers"));
    list.push(chars_of("herself"));
    list.push(chars_of("it"));
    list.push(chars_of("its"));
    list.push(chars_of("itself"));
    list.push(chars_of("they"));
    list.push(chars_of("them"));
    list.push(chars_of("their"));
    list.push(chars_of("theirs"));
    list.push(chars_of("themselves"));
    assert(rows(list@) =~= rows(old(list)@) + stopwords_part_6());
}

/// Part 7 of the words that tokenizing leaves out where it is told to.
pub open spec fn stopwords_part_7() -> Seq<Seq<char>> {
    seq![
        "what"@,
        "which"@,
        "who"@,
        "whom"@,
        "this"@,
        "that"@,
        "these"@,
        "those"@,
        "am"@,
        "is"@,
        "are"@,
        "was"@,
        "were"@,
        "be"@,
    ]
}

/// Appends part 7 of the list to `list`.
fn push_stopwords_part_7(list: &mut Vec<Vec<char>>)
    ensures
        rows(final(list)@) == rows(old(list)@) + stopwords_part_7(),
{
    list.push(chars_of("what"));
    list.push(chars_of("which"));
    list.push(chars_of("who"));
    list.push(chars_of("whom"));
    list.push(chars_of("this"));
    list.push(chars_of("that"));
    list.push(chars_of("these"));
    list.push(chars_of("those"));
    list.push(chars_of("am"));
    list.push(chars_of("is"));
    list.push(chars_of("are"));
    list.push(chars_of("was"));
    list.push(chars_of("were"));
    list.push(chars_of("be"));
    assert(rows(list@) =~= rows(old(list)@) + stopwords_part_7());
}

/// Part 8 of the words that tokenizing leaves out where it is told to.
pub open spec fn stopwords_part_8() -> Seq<Seq<char>> {
    seq![
        "been"@,
        "being"@,
        "have"@,
        "has"@,
        "had"@,
        "having"@,
        "do"@,
        "does"@,
        "did"@,
        "doing"@,
        "would"@,
        "could"@,
        "ought"@,
        "i'm"@,
    ]
}

/// Appends part 8 of the list to `list`.
fn push_stopwords_part_8(list: &mut Vec<Vec<char>>)
    ensures
        rows(final(list)@) == rows(old(list)@) + stopwords_part_8(),
{
    list.push(chars_of("been"));
    list.push(chars_of("being"));
    list.push(chars_of("have"));
    list.push(chars_of("has"));
    list.push(chars_of("had"));
    list.push(chars_of("having"));
    list.push(chars_of("do"));
    list.push(chars_of("does"));
    list.push(chars_of("did"));
    list.push(chars_of("doing"));
    list.push(chars_of("would"));
    list.push(chars_of("could"));
    list.push(chars_of("ought"));
    list.push(chars_of("i'm"));
    assert(rows(list@) =~= rows(old(list)@) + stopwords_part_8());
}

/// Part 9 of the words that tokenizing leaves out where it is told to.
pub open spec fn stopwords_part_9() -> Seq<Seq<char>> {
    seq![
        "you're"@,
        "he's"@,
        "she's"@,
        "it's"@,
        "we're"@,
        "they're"@,
        "i've"@,
        "you've"@,
        "we've"@,
        "they've"@,
        "i'd"@,
        "you'd"@,
        "he'd"@,
        "she'd"@,
    ]
}

/// Appends part 9 of the list to `list`.
fn push_stopwords_part_9(list: &mut Vec<Vec<char>>)
    ensures
        rows(final(list)@) == rows(old(list)@) + stopwords_part_9(),
{
    list.push(chars_of("you're"));
    list.push(chars_of("he's"));
    list.push(chars_of("she's"));
    list.push(chars_of("it's"));
    list.push(chars_of("we're"));
    list.push(chars_of("they're"));
    list.push(chars_of("i've"));
    list.push(chars_of("you've"));
    list.push(chars_of("we've"));
    list.push(chars_of("they've"));
    list.push(chars_of("i'd"));
    list.push(chars_of("you'd"));
    list.push(chars_of("he'd"));
    list.push(chars_of("she'd"));
    assert(rows(list@) =~= rows(old(list)@) + stopwords_part_9());
}

/// Part 10 of the words that tokenizing leaves out where it is told to.
pub open spec fn stopwords_part_10() -> Seq<Seq<char>> {
    seq![
        "we'd"@,
        "they'd"@,
        "i'll"@,
        "you'll"@,
        "he'll"@,
        "she'll"@,
        "we'll"@,
        "they'll"@,
        "isn't"@,
        "aren't"@,
        "wasn't"@,
        "weren't"@,
        "hasn't"@,
        "haven't"@,
    ]
}

/// Appends part 10 of the list to `list`.
fn push_stopwords_part_10(list: &mut Vec<Vec<char>>)
    ensures
        rows(final(list)@) == rows(old(list)@) + stopwords_part_10(),
{
    list.push(chars_of("we'd"));
    list.push(chars_of("they'd"));
    list.push(chars_of("i'll"));
    list.push(chars_of("you'll"));
    list.push(chars_of("he'll"));
    list.push(chars_of("she'll"));
    list.push(chars_of("we'll"));
    list.push(chars_of("they'll"));
    list.push(chars_of("isn't"));
    list.push(chars_of("aren't"));
    list.push(chars_of("wasn't"));
    list.push(chars_of("weren't"));
    list.push(chars_of("hasn't"));
    list.push(chars_of("haven't"));
    assert(rows(list@) =~= rows(old(list)@) + stopwords_part_10());
}

/// Part 11 of the words that tokenizing leaves out where it is told to.
pub open spec fn stopwords_part_11() -> Seq<Seq<char>> {
    seq![
        "hadn't"@,
        "doesn't"@,
        "don't"@,
        "didn't"@,
        "won't"@,
        "wouldn't"@,
        "shan't"@,
        "shouldn't"@,
        "can't"@,
        "cannot"@,
        "couldn't"@,
        "mustn't"@,
        "let's"@,
        "that's"@,
    ]
}

/// Appends part 11 of the list to `list`.
fn push_stopwords_part_11(list: &mut Vec<Vec<char>>)
    ensures
        rows(final(list)@) == rows(old(list)@) + stopwords_part_11(),
{
    list.push(chars_of("hadn't"));
    list.push(chars_of("doesn't"));
    list.push(chars_of("don't"));
    list.push(chars_of("didn't"));
    list.push(chars_of("won't"));
    list.push(chars_of("wouldn't"));
    list.push(chars_of("shan't"));
    list.push(chars_of("shouldn't"));
    list.push(chars_of("can't"));
    list.push(chars_of("cannot"));
    list.push(chars_of("couldn't"));
    list.push(chars_of("mustn't"));
    list.push(chars_of("let's"));
    list.push(chars_of("that's"));
    assert(rows(list@) =~= rows(old(list)@) + stopwords_part_11());
}

/// Part 12 of the words that tokenizing leaves out where it is told to.
pub open spec fn stopwords_part_12() -> Seq<Seq<char>> {
    seq![
        "who's"@,
        "what's"@,
        "here's"@,
        "there's"@,
        "when's"@,
        "where's"@,
        "why's"@,
        "how's"@,
    ]
}

/// Appends part 12 of the list to `list`.
fn push_stopwords_part_12(list: &mut Vec<Vec<char>>)
    ensures
        rows(final(list)@) == rows(old(list)@) + stopwords_part_12(),
{
    list.push(chars_of("who's"));
    list.push(chars_of("what's"));
    list.push(chars_of("here's"));
    list.push(chars_of("there's"));
    list.push(chars_of("when's"));
    list.push(chars_of("where's"));
    list.push(chars_of("why's"));
    list.push(chars_of("how's"));
    assert(rows(list@) =~= rows(old(list)@) + stopwords_part_12());
}

/// The words that tokenizing leaves out where it is told to.
pub open spec fn stopwords() -> Seq<Seq<char>> {
    stopwords_part_1() + stopwords_part_2() + stopwords_part_3() + stopwords_part_4() + stopwords_part_5() + stopwords_part_6() + stopwords_part_7() + stopwords_part_8() + stopwords_part_9() + stopwords_part_10() + stopwords_part_11() + stopwords_part_12()
}

/// Builds the list `stopwords`.
pub fn stopwords_list() -> (list: Vec<Vec<char>>)
    ensures
        rows(list@) == stopwords(),
{
    let mut list: Vec<Vec<char>> = Vec::new();
    assert(rows(list@) =~= Seq::<Seq<char>>::empty());
    push_stopwords_part_1(&mut list);
    push_stopwords_part_2(&mut list);
    push_stopwords_part_3(&mut list);
    push_stopwords_part_4(&mut list);
    push_stopwords_part_5(&mut list);
    push_stopwords_part_6(&mut list);
    push_stopwords_part_7(&mut list);
    push_stopwords_part_8(&mut list);
    push_stopwords_part_9(&mut list);
    push_stopwords_part_10(&mut list);
    push_stopwords_part_11(&mut list);
    push_stopwords_part_12(&mut list);
    assert(rows(list@) =~= stopwords());
    list
}

/// Part 1 of the words that are too common to be keywords.
pub open spec fn common_words_part_1() -> Seq<Seq<char>> {
    seq![
        "the"@,
        "be"@,
        "to"@,
        "of"@,
        "and"@,
        "a"@,
        "in"@,
        "that"@,
        "have"@,
        "i"@,
        "it"@,
        "for"@,
        "not"@,
        "on"@,
    ]
}

/// Appends part 1 of the list to `list`.
fn push_common_words_part_1(list: &mut Vec<Vec<char>>)
    ensures
        rows(final(list)@) == rows(old(list)@) + common_words_part_1(),
{
    list.push(chars_of("the"));
    list.push(chars_of("be"));
    list.push(chars_of("to"));
    list.push(chars_of("of"));
    list.push(chars_of("and"));
    list.push(chars_of("a"));
    list.push(chars_of("in"));
    list.push(chars_of("that"));
    list.push(chars_of("have"));
    list.push(chars_of("i"));
    list.push(chars_of("it"));
    list.push(chars_of("for"));
    list.push(chars_of("not"));
    list.push(chars_of("on"));
    assert(rows(list@) =~= rows(old(list)@) + common_words_part_1());
}

/// Part 2 of the words that are too common to be keywords.
pub open spec fn common_words_part_2() -> Seq<Seq<char>> {
    seq![
        "with"@,
        "he"@,
        "as"@,
        "you"@,
        "do"@,
        "at"@,
        "this"@,
        "but"@,
        "his"@,
        "by"@,
        "from"@,
        "they"@,
        "we"@,
        "say"@,
    ]
}

/// Appends part 2 of the list to `list`.
fn push_common_words_part_2(list: &mut Vec<Vec<char>>)
    ensures
        rows(final(list)@) == rows(old(list)@) + common_words_part_2(),
{
    list.push(chars_of("with"));
    list.push(chars_of("he"));
    list.push(chars_of("as"));
    list.push(chars_of("you"));
    list.push(chars_of("do"));
    list.push(chars_of("at"));
    list.push(chars_of("this"));
    list.push(chars_of("but"));
    list.push(chars_of("his"));
    list.push(chars_of("by"));
    list.push(chars_of("from"));
    list.push(chars_of("they"));
    list.push(chars_of("we"));
    list.push(chars_of("say"));
    assert(rows(list@) =~= rows(old(list)@) + common_words_part_2());
}

/// Part 3 of the words that are too common to be keywords.
pub open spec fn common_words_part_3() -> Seq<Seq<char>> {
    seq![
        "her"@,
        "she"@,
        "or"@,
        "an"@,
        "will"@,
        "my"@,
        "one"@,
        "all"@,
        "would"@,
        "there"@,
        "their"@,
        "what"@,
        "so"@,
        "up"@,
    ]
}

/// Appends part 3 of the list to `list`.
fn push_common_words_part_3(list: &mut Vec<Vec<char>>)
    ensures
        rows(final(list)@) == rows(old(list)@) + common_words_part_3(),
{
    list.push(chars_of("her"));
    list.push(chars_of("she"));
    list.push(chars_of("or"));
    list.push(chars_of("an"));
    list.push(chars_of("will"));
    list.push(chars_of("my"));
    list.push(chars_of("one"));
    list.push(chars_of("all"));
    list.push(chars_of("would"));
    list.push(chars_of("there"));
    list.push(chars_of("their"));
    list.push(chars_of("what"));
    list.push(chars_of("so"));
    list.push(chars_of("up"));
    assert(rows(list@) =~= rows(old(list)@) + common_words_part_3());
}

/// Part 4 of the words that are too common to be keywords.
pub open spec fn common_words_part_4() -> Seq<Seq<char>> {
    seq![
        "out"@,
        "if"@,
        "about"@,
        "who"@,
        "get"@,
        "which"@,
        "go"@,
        "me"@,
    ]
}

/// Appends part 4 of the list to `list`.
fn push_common_words_part_4(list: &mut Vec<Vec<char>>)
    ensures
        rows(final(list)@) == rows(old(list)@) + common_words_part_4(),
{
    list.push(chars_of("out"));
    list.push(chars_of("if"));
    list.push(chars_of("about"));
    list.push(chars_of("who"));
    list.push(chars_of("get"));
    list.push(chars_of("which"));
    list.push(chars_of("go"));
    list.push(chars_of("me"));
    assert(rows(list@) =~= rows(old(list)@) + common_words_part_4());
}

/// The words that are too common to be keywords.
pub open spec fn common_words() -> Seq<Seq<char>> {
    common_words_part_1() + common_words_part_2() + common_words_part_3() + common_words_part_4()
}

/// Builds the list `common_words`.
pub fn common_words_list() -> (list: Vec<Vec<char>>)
    ensures
        rows(list@) == common_words(),
{
    let mut list: Vec<Vec<char>> = Vec::new();
    assert(rows(list@) =~= Seq::<Seq<char>>::empty());
    push_common_words_part_1(&mut list);
    push_common_words_part_2(&mut list);
    push_common_words_part_3(&mut list);
    push_common_words_part_4(&mut list);
    assert(rows(list@) =~= common_words());
    list
}

/// Tests whether a list holds a word.
pub fn list_has(list: &Vec<Vec<char>>, word: &Vec<char>) -> (r: bool)
    ensures
        r == rows(list@).contains(word@),
{
    let mut i: usize = 0;
    while i < list.len()
        invariant
            i <= list.len(),
            forall|k: int| 0 <= k < i ==> rows(list@)[k] != word@,
        decreases list.len() - i,
    {
        assert(rows(list@)[i as int] == list[i as int]@);
        if same_chars(&list[i], word) {
            return true;
        }
        i += 1;
    }
    false
}

/// Tests whether a word is a stopword.
pub fn is_stopword(word: &str) -> (r: bool)
    ensures
        r == stopwords().contains(word@),
{
    list_has(&stopwords_list(), &chars_of(word))
}

/// Tests whether a word is too common to be a keyword.
pub fn is_common_word(word: &str) -> (r: bool)
    ensures
        r == common_words().contains(word@),
{
    list_has(&common_words_list(), &chars_of(word))
}

} // verus!
