//! Splitting text at a separator.

use vstd::prelude::*;
use crate::text::{first_position, is_first, lemma_first_position, lemma_first_position_none,
    lemma_first_position_some};

verus! {

/// The pieces of `s` between the occurrences of `separator`, in order. There
/// is one piece more than there are separators; a piece may be empty.
pub open spec fn split(s: Seq<char>, separator: char) -> Seq<Seq<char>>
    decreases s.len(),
    via split_decreases
{
    match first_position(s, separator) {
        None => seq![s],
        Some(p) => seq![s.take(p)] + split(s.skip(p + 1), separator),
    }
}

#[via_fn]
proof fn split_decreases(s: Seq<char>, separator: char) {
    if first_position(s, separator) is Some {
        lemma_first_position_some(s, separator);
    }
}

/// The pieces that are not empty, in order.
pub open spec fn non_empty(pieces: Seq<Seq<char>>) -> Seq<Seq<char>>
    decreases pieces.len(),
{
    if pieces.len() == 0 {
        Seq::empty()
    } else if pieces.last().len() > 0 {
        non_empty(pieces.drop_last()).push(pieces.last())
    } else {
        non_empty(pieces.drop_last())
    }
}

/// The words of a line: what stands between blanks.
pub open spec fn words(line: Seq<char>) -> Seq<Seq<char>> {
    non_empty(split(line, ' '))
}

/// The line without the carriage return at its end, if it has one.
pub open spec fn without_return(line: Seq<char>) -> Seq<char> {
    if line.len() > 0 && line.last() == '\r' {
        line.drop_last()
    } else {
        line
    }
}

/// The lines of a text. A line ends with a line feed, or with a carriage
/// return and a line feed; the last line may go without an ending.
pub open spec fn lines(text: Seq<char>) -> Seq<Seq<char>> {
    let pieces = split(text, '\n');
    let ended = pieces.drop_last().map_values(|piece: Seq<char>| without_return(piece));
    if pieces.last().len() > 0 {
        ended.push(pieces.last())
    } else {
        ended
    }
}

/// Finds the first occurrence of `c` at or behind position `start`.
pub(crate) fn find_from(chars: &Vec<char>, c: char, start: usize) -> (r: Option<usize>)
    requires
        start <= chars@.len(),
    ensures
        match r {
            Some(p) => start <= p < chars@.len() && first_position(chars@.skip(start as int), c)
                == Some(p - start),
            None => first_position(chars@.skip(start as int), c) is None,
        },
{
    let ghost rest = chars@.skip(start as int);
    let mut i: usize = start;
    while i < chars.len()
        invariant
            start <= i <= chars.len(),
            rest == chars@.skip(start as int),
            forall|k: int| 0 <= k < i - start ==> rest[k] != c,
        decreases chars.len() - i,
    {
        if chars[i] == c {
            proof {
                assert(rest[i - start] == chars@[i as int]);
                assert(is_first(rest, c, i - start));
                lemma_first_position(rest, c, i - start);
            }
            return Some(i);
        }
        assert(rest[i - start] == chars@[i as int]);
        i += 1;
    }
    proof {
        lemma_first_position_none(rest, c);
    }
    None
}

/// The characters from position `from` up to position `to`.
pub(crate) fn slice(chars: &Vec<char>, from: usize, to: usize) -> (piece: Vec<char>)
    requires
        from <= to <= chars@.len(),
    ensures
        piece@ == chars@.subrange(from as int, to as int),
{
    let mut piece: Vec<char> = Vec::new();
    let mut i: usize = from;
    while i < to
        invariant
            from <= i <= to,
            to <= chars@.len(),
            piece@ == chars@.subrange(from as int, i as int),
        decreases to - i,
    {
        piece.push(chars[i]);
        assert(piece@ =~= chars@.subrange(from as int, i + 1));
        i += 1;
    }
    piece
}

/// The views of the pieces.
pub open spec fn piece_views(pieces: Seq<Vec<char>>) -> Seq<Seq<char>> {
    pieces.map_values(|piece: Vec<char>| piece@)
}

/// Splits the characters at every occurrence of `separator`.
pub fn split_chars(chars: &Vec<char>, separator: char) -> (pieces: Vec<Vec<char>>)
    ensures
        piece_views(pieces@) == split(chars@, separator),
        pieces@.len() > 0,
{
    let mut pieces: Vec<Vec<char>> = Vec::new();
    let mut start: usize = 0;
    let mut finished = false;
    assert(chars@.skip(0) =~= chars@);
    assert(piece_views(pieces@) + split(chars@.skip(0), separator) =~= split(chars@, separator));
    while !finished
        invariant
            start <= chars@.len(),
            chars@.len() == chars.len(),
            !finished ==> piece_views(pieces@) + split(chars@.skip(start as int), separator)
                == split(chars@, separator),
            finished ==> piece_views(pieces@) == split(chars@, separator) && pieces@.len() > 0,
        decreases chars@.len() - start + if finished { 0int } else { 1int },
    {
        let ghost rest = chars@.skip(start as int);
        let ghost before = piece_views(pieces@);
        match find_from(chars, separator, start) {
            Some(p) => {
                let piece = slice(chars, start, p);
                proof {
                    assert(piece@ =~= rest.take(p - start));
                    assert(rest.skip(p - start + 1) =~= chars@.skip(p + 1));
                }
                pieces.push(piece);
                proof {
                    assert(piece_views(pieces@) =~= before.push(piece@));
                    assert(before.push(piece@) + split(chars@.skip(p + 1), separator) =~= before + (
                    seq![piece@] + split(chars@.skip(p + 1), separator)));
                }
                assert(p < chars.len());
                start = p + 1;
            },
            None => {
                let piece = slice(chars, start, chars.len());
                proof {
                    assert(piece@ =~= rest);
                }
                pieces.push(piece);
                proof {
                    assert(piece_views(pieces@) =~= before.push(piece@));
                    assert(before.push(piece@) =~= before + seq![rest]);
                }
                finished = true;
            },
        }
    }
    pieces
}

} // verus!
