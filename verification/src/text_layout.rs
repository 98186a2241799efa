//! The lines, paragraphs and header fields of a text.

use vstd::prelude::*;
use crate::chars::{trim, trimmed};
use crate::strings::{copy_range, rows};

verus! {

/// The line that ends before the line feed at `at`: the characters from
/// `from` on, without a carriage return at their end.
pub open spec fn line_body(s: Seq<char>, from: nat, at: nat) -> Seq<char>
    recommends
        from <= at <= s.len(),
{
    if at > from && s[at - 1] == '\r' {
        s.subrange(from as int, at - 1)
    } else {
        s.subrange(from as int, at as int)
    }
}

/// The lines from `from` on, read from `at` on: a line ends at a line feed,
/// which is not part of it, nor is a carriage return before the line feed.
/// What follows the last line feed is a line unless it is empty.
pub open spec fn lines_from(s: Seq<char>, from: nat, at: nat) -> Seq<Seq<char>>
    recommends
        from <= at,
    decreases s.len() - at,
{
    if at >= s.len() {
        if from < s.len() {
            seq![s.subrange(from as int, s.len() as int)]
        } else {
            Seq::empty()
        }
    } else if s[at as int] == '\n' {
        seq![line_body(s, from, at)] + lines_from(s, at + 1, at + 1)
    } else {
        lines_from(s, from, at + 1)
    }
}

/// The lines of a text.
pub open spec fn lines_of(s: Seq<char>) -> Seq<Seq<char>> {
    lines_from(s, 0, 0)
}

/// Splits a text into its lines.
pub fn split_lines(s: &Vec<char>) -> (lines: Vec<Vec<char>>)
    ensures
        rows(lines@) == lines_of(s@),
{
    let mut lines: Vec<Vec<char>> = Vec::new();
    let mut from: usize = 0;
    let mut at: usize = 0;
    assert(rows(lines@) + lines_from(s@, 0, 0) =~= lines_of(s@));
    while at < s.len()
        invariant
            from <= at <= s.len(),
            rows(lines@) + lines_from(s@, from as nat, at as nat) == lines_of(s@),
        decreases s.len() - at,
    {
        if s[at] == '\n' {
            let end: usize = if at > from && s[at - 1] == '\r' {
                at - 1
            } else {
                at
            };
            let ghost before = rows(lines@);
            lines.push(copy_range(s, from, end));
            assert(rows(lines@) =~= before.push(line_body(s@, from as nat, at as nat)));
            assert(before.push(line_body(s@, from as nat, at as nat)) + lines_from(
                s@,
                (at + 1) as nat,
                (at + 1) as nat,
            ) =~= before + (seq![line_body(s@, from as nat, at as nat)] + lines_from(
                s@,
                (at + 1) as nat,
                (at + 1) as nat,
            )));
            from = at + 1;
        }
        at += 1;
    }
    if from < s.len() {
        let ghost before = rows(lines@);
        lines.push(copy_range(s, from, s.len()));
        assert(rows(lines@) =~= before + lines_from(s@, from as nat, at as nat));
    } else {
        assert(rows(lines@) + Seq::<Seq<char>>::empty() =~= rows(lines@));
    }
    lines
}

/// The first position from `from` on that holds `c`, or the length.
pub open spec fn position_of(s: Seq<char>, c: char, from: nat) -> nat
    decreases s.len() - from,
{
    if from >= s.len() {
        s.len()
    } else if s[from as int] == c {
        from
    } else {
        position_of(s, c, from + 1)
    }
}

/// Finds the first position that holds `c`.
pub fn find_char(s: &Vec<char>, c: char) -> (r: Option<usize>)
    ensures
        match r {
            Some(i) => i < s.len() && i == position_of(s@, c, 0),
            None => position_of(s@, c, 0) == s.len(),
        },
{
    let mut i: usize = 0;
    while i < s.len()
        invariant
            i <= s.len(),
            position_of(s@, c, 0) == position_of(s@, c, i as nat),
        decreases s.len() - i,
    {
        if s[i] == c {
            return Some(i);
        }
        i += 1;
    }
    None
}

/// The field that a header line states: the text before its first colon
/// and the text behind it, each without the white space at its ends. A
/// line without a colon states none.
pub open spec fn header_field(line: Seq<char>) -> Option<(Seq<char>, Seq<char>)> {
    let colon = position_of(line, ':', 0);
    if colon >= line.len() {
        None
    } else {
        Some((trimmed(line.take(colon as int)), trimmed(line.skip(colon as int + 1))))
    }
}

/// The fields of the header that starts at line `i`: those of the lines up
/// to the first line that is empty or white space.
pub open spec fn header_from(lines: Seq<Seq<char>>, i: nat) -> Seq<(Seq<char>, Seq<char>)>
    decreases lines.len() - i,
{
    if i >= lines.len() || trimmed(lines[i as int]).len() == 0 {
        Seq::empty()
    } else {
        match header_field(lines[i as int]) {
            Some(field) => seq![field] + header_from(lines, i + 1),
            None => header_from(lines, i + 1),
        }
    }
}

/// The fields of the header of a text, with their names as they are
/// written.
pub open spec fn header_of(text: Seq<char>) -> Seq<(Seq<char>, Seq<char>)> {
    header_from(lines_of(text), 0)
}

/// The views of a list of fields.
pub open spec fn field_rows(fields: Seq<(Vec<char>, Vec<char>)>) -> Seq<(Seq<char>, Seq<char>)> {
    Seq::new(fields.len(), |i: int| (fields[i].0@, fields[i].1@))
}

/// Reads the fields of the header of a text: `name: value` lines up to the
/// first line that is empty or white space.
pub fn header_fields(text: &Vec<char>) -> (fields: Vec<(Vec<char>, Vec<char>)>)
    ensures
        field_rows(fields@) == header_of(text@),
{
    let lines = split_lines(text);
    let mut fields: Vec<(Vec<char>, Vec<char>)> = Vec::new();
    let mut i: usize = 0;
    assert(field_rows(fields@) + header_from(rows(lines@), 0) =~= header_of(text@));
    while i < lines.len()
        invariant
            i <= lines.len(),
            rows(lines@) == lines_of(text@),
            field_rows(fields@) + header_from(rows(lines@), i as nat) == header_of(text@),
        ensures
            field_rows(fields@) == header_of(text@),
        decreases lines.len() - i,
    {
        let line = &lines[i];
        assert(rows(lines@)[i as int] == line@);
        if trim(line).len() == 0 {
            assert(field_rows(fields@) + Seq::<(Seq<char>, Seq<char>)>::empty() =~= field_rows(
                fields@,
            ));
            break ;
        }
        match find_char(line, ':') {
            Some(colon) => {
                let name = trim(&copy_range(line, 0, colon));
                let value = trim(&copy_range(line, colon + 1, line.len()));
                let ghost before = field_rows(fields@);
                let ghost field = (name@, value@);
                assert(line@.take(colon as int) =~= line@.subrange(0, colon as int));
                assert(line@.skip(colon + 1) =~= line@.subrange(colon + 1, line@.len() as int));
                fields.push((name, value));
                assert(field_rows(fields@) =~= before.push(field));
                assert(before.push(field) + header_from(rows(lines@), (i + 1) as nat) =~= before
                    + (seq![field] + header_from(rows(lines@), (i + 1) as nat)));
            },
            None => {},
        }
        i += 1;
    }
    proof {
        if i >= lines.len() {
            assert(field_rows(fields@) + Seq::<(Seq<char>, Seq<char>)>::empty() =~= field_rows(
                fields@,
            ));
        }
    }
    fields
}

/// Where the first blank line lies from `at` on: the first position that
/// holds a line feed followed by a line feed, or the length.
pub open spec fn blank_line_from(s: Seq<char>, at: nat) -> nat
    decreases s.len() - at,
{
    if at >= s.len() {
        s.len()
    } else if at + 1 < s.len() && s[at as int] == '\n' && s[at as int + 1] == '\n' {
        at
    } else {
        blank_line_from(s, at + 1)
    }
}

/// The parts of a text between its blank lines, from `from` on: a part ends
/// where two line feeds follow each other, and the next begins behind them.
pub open spec fn parts_from(s: Seq<char>, from: nat) -> Seq<Seq<char>>
    recommends
        from <= s.len(),
    decreases s.len() - from,
    via parts_from_decreases
{
    let cut = blank_line_from(s, from);
    if from > s.len() {
        Seq::empty()
    } else if cut >= s.len() {
        seq![s.subrange(from as int, s.len() as int)]
    } else {
        seq![s.subrange(from as int, cut as int)] + parts_from(s, cut + 2)
    }
}

/// The next part begins behind the blank line, so nearer to the end.
#[via_fn]
proof fn parts_from_decreases(s: Seq<char>, from: nat) {
    lemma_blank_line_bounds(s, from);
}

/// The first blank line from `at` on lies at `at` or behind it, and has
/// both its line feeds within the text.
pub proof fn lemma_blank_line_bounds(s: Seq<char>, at: nat)
    ensures
        at <= s.len() ==> at <= blank_line_from(s, at) <= s.len(),
        blank_line_from(s, at) < s.len() ==> blank_line_from(s, at) + 1 < s.len(),
    decreases s.len() - at,
{
    if at < s.len() && !(at + 1 < s.len() && s[at as int] == '\n' && s[at as int + 1] == '\n') {
        lemma_blank_line_bounds(s, at + 1);
    }
}

/// Finds the first blank line from `at` on.
pub fn find_blank_line(s: &Vec<char>, at: usize) -> (r: usize)
    requires
        at <= s.len(),
    ensures
        r == blank_line_from(s@, at as nat),
        at <= r <= s.len(),
        r < s.len() ==> r + 1 < s.len(),
{
    let mut i: usize = at;
    proof {
        lemma_blank_line_bounds(s@, at as nat);
    }
    while i < s.len()
        invariant
            at <= i <= s.len(),
            blank_line_from(s@, at as nat) == blank_line_from(s@, i as nat),
        decreases s.len() - i,
    {
        if s[i] == '\n' && i + 1 < s.len() && s[i + 1] == '\n' {
            return i;
        }
        i += 1;
    }
    i
}

/// Splits a text at its blank lines.
pub fn split_parts(s: &Vec<char>) -> (parts: Vec<Vec<char>>)
    ensures
        rows(parts@) == parts_from(s@, 0),
{
    let mut parts: Vec<Vec<char>> = Vec::new();
    let mut from: usize = 0;
    assert(rows(parts@) + parts_from(s@, 0) =~= parts_from(s@, 0));
    loop
        invariant_except_break
            rows(parts@) + parts_from(s@, from as nat) == parts_from(s@, 0),
        invariant
            from <= s.len(),
        ensures
            rows(parts@) == parts_from(s@, 0),
        decreases s.len() - from,
    {
        let cut = find_blank_line(s, from);
        let ghost before = rows(parts@);
        let ghost part = s@.subrange(from as int, cut as int);
        parts.push(copy_range(s, from, cut));
        assert(rows(parts@) =~= before.push(part));
        if cut >= s.len() {
            assert(before.push(part) =~= before + seq![part]);
            break ;
        }
        assert(before.push(part) + parts_from(s@, (cut + 2) as nat) =~= before + (seq![part]
            + parts_from(s@, (cut + 2) as nat)));
        from = cut + 2;
    }
    parts
}

/// The first `n` parts, each without the white space at its ends, and
/// without the parts that are empty then.
pub open spec fn trimmed_parts(parts: Seq<Seq<char>>, n: nat) -> Seq<Seq<char>>
    decreases n,
{
    if n == 0 {
        Seq::empty()
    } else {
        let before = trimmed_parts(parts, (n - 1) as nat);
        if trimmed(parts[n - 1]).len() == 0 {
            before
        } else {
            before.push(trimmed(parts[n - 1]))
        }
    }
}

/// The paragraphs of a text: its parts between blank lines, each without
/// the white space at its ends, and without those that are empty then.
pub open spec fn paragraphs_of(text: Seq<char>) -> Seq<Seq<char>> {
    trimmed_parts(parts_from(text, 0), parts_from(text, 0).len())
}

/// Splits a text into its paragraphs.
pub fn split_paragraphs(text: &Vec<char>) -> (paragraphs: Vec<Vec<char>>)
    ensures
        rows(paragraphs@) == paragraphs_of(text@),
{
    let parts = split_parts(text);
    let mut paragraphs: Vec<Vec<char>> = Vec::new();
    let mut i: usize = 0;
    assert(rows(paragraphs@) =~= trimmed_parts(rows(parts@), 0));
    while i < parts.len()
        invariant
            i <= parts.len(),
            rows(paragraphs@) == trimmed_parts(rows(parts@), i as nat),
        decreases parts.len() - i,
    {
        assert(rows(parts@)[i as int] == parts[i as int]@);
        let paragraph = trim(&parts[i]);
        if paragraph.len() > 0 {
            let ghost before = rows(paragraphs@);
            paragraphs.push(paragraph);
            assert(rows(paragraphs@) =~= before.push(trimmed(parts[i as int]@)));
        }
        i += 1;
    }
    paragraphs
}

} // verus!
