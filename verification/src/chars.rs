//! Classes of characters.

use vstd::prelude::*;

verus! {

/// Whether a character is ASCII punctuation: one of
/// ``! " # $ % & ' ( ) * + , - . /``, ``: ; < = > ? @``, ``[ \ ] ^ _ ` `` and
/// ``{ | } ~``.
pub open spec fn is_punctuation(c: char) -> bool {
    let code = c as u32;
    (0x21 <= code <= 0x2f) || (0x3a <= code <= 0x40) || (0x5b <= code <= 0x60) || (0x7b <= code
        <= 0x7e)
}

/// Whether a character is white space, as Unicode defines it.
pub open spec fn is_space(c: char) -> bool {
    let code = c as u32;
    (0x09 <= code <= 0x0d) || code == 0x20 || code == 0x85 || code == 0xa0 || code == 0x1680 || (
    0x2000 <= code <= 0x200a) || code == 0x2028 || code == 0x2029 || code == 0x202f || code
        == 0x205f || code == 0x3000
}

/// Tests whether a character is ASCII punctuation.
pub fn is_ascii_punctuation(c: char) -> (r: bool)
    ensures
        r == is_punctuation(c),
{
    let code: u32 = c as u32;
    (0x21 <= code && code <= 0x2f) || (0x3a <= code && code <= 0x40) || (0x5b <= code && code
        <= 0x60) || (0x7b <= code && code <= 0x7e)
}

/// Tests whether a character is white space.
pub fn is_whitespace(c: char) -> (r: bool)
    ensures
        r == is_space(c),
{
    let code: u32 = c as u32;
    (0x09 <= code && code <= 0x0d) || code == 0x20 || code == 0x85 || code == 0xa0 || code
        == 0x1680 || (0x2000 <= code && code <= 0x200a) || code == 0x2028 || code == 0x2029
        || code == 0x202f || code == 0x205f || code == 0x3000
}

/// The characters without the white space at their start and at their end.
pub open spec fn trimmed(s: Seq<char>) -> Seq<char> {
    let start = trim_start(s, 0);
    s.subrange(start as int, trim_end(s, start, s.len()) as int)
}

/// The first position from `from` on that holds no white space, or the
/// length.
pub open spec fn trim_start(s: Seq<char>, from: nat) -> nat
    decreases s.len() - from,
{
    if from >= s.len() {
        s.len()
    } else if is_space(s[from as int]) {
        trim_start(s, from + 1)
    } else {
        from
    }
}

/// The end of the text between `start` and `to` when the white space at its
/// end is taken off.
pub open spec fn trim_end(s: Seq<char>, start: nat, to: nat) -> nat
    decreases to,
{
    if to <= start || to > s.len() {
        start
    } else if is_space(s[to - 1]) {
        trim_end(s, start, (to - 1) as nat)
    } else {
        to
    }
}

/// Takes the white space off both ends.
pub fn trim(s: &Vec<char>) -> (r: Vec<char>)
    ensures
        r@ == trimmed(s@),
{
    let mut start: usize = 0;
    while start < s.len() && is_whitespace(s[start])
        invariant
            start <= s.len(),
            trim_start(s@, 0) == trim_start(s@, start as nat),
        decreases s.len() - start,
    {
        start += 1;
    }
    let mut end: usize = s.len();
    while end > start && is_whitespace(s[end - 1])
        invariant
            start <= end <= s.len(),
            start == trim_start(s@, 0),
            trim_end(s@, start as nat, s@.len()) == trim_end(s@, start as nat, end as nat),
        decreases end,
    {
        end -= 1;
    }
    let mut r: Vec<char> = Vec::new();
    let mut i: usize = start;
    while i < end
        invariant
            start <= i <= end <= s.len(),
            r@ == s@.subrange(start as int, i as int),
        decreases end - i,
    {
        r.push(s[i]);
        assert(r@ =~= s@.subrange(start as int, i + 1));
        i += 1;
    }
    r
}

} // verus!
