//! The coordinate rule: a magnitude in tenths of a degree followed by one
//! hemisphere letter.

use vstd::prelude::*;
use crate::number::{parse_signed, read_signed};
use crate::text::{chars_of, Span};

verus! {

/// The largest magnitude that a coordinate may write, in tenths of a degree.
pub const COORDINATE_LIMIT: u32 = 0x7fff_ffff;

/// The coordinate that `s` writes, in tenths of a degree.
///
/// The last character is the hemisphere letter and what stands before it is a
/// signed number. The number is kept under the letter `positive` and negated
/// under the letter `negative`. An empty field, any other last character, and a
/// prefix that is no number within the limit write no coordinate.
pub open spec fn coordinate(s: Seq<char>, positive: char, negative: char) -> Option<int> {
    if s.len() == 0 {
        None
    } else {
        match parse_signed(s.drop_last(), COORDINATE_LIMIT as nat, COORDINATE_LIMIT as nat) {
            Some(v) => if s.last() == positive {
                Some(v)
            } else if s.last() == negative {
                Some(-v)
            } else {
                None
            },
            None => None,
        }
    }
}

/// A coordinate ends in one of the two letters of its axis.
pub proof fn lemma_coordinate_letter(s: Seq<char>, positive: char, negative: char)
    requires
        coordinate(s, positive, negative) is Some,
    ensures
        s.len() >= 2,
        s.last() == positive || s.last() == negative,
{
}

/// Reads the coordinate that `span` covers.
pub fn read_coordinate(chars: &Vec<char>, span: Span, positive: char, negative: char) -> (r: Option<
    i32,
>)
    requires
        span.within(chars@.len()),
    ensures
        r is Some <==> coordinate(span.of(chars@), positive, negative) is Some,
        r matches Some(v) ==> coordinate(span.of(chars@), positive, negative) == Some(v as int),
{
    if span.start == span.end {
        return None;
    }
    let letter = chars[span.end - 1];
    proof {
        assert(span.of(chars@).drop_last() =~= chars@.subrange(span.start as int, span.end - 1));
        assert(span.of(chars@).last() == letter);
    }
    let prefix = Span { start: span.start, end: span.end - 1 };
    match read_signed(chars, prefix, COORDINATE_LIMIT, COORDINATE_LIMIT) {
        Some(v) => if letter == positive {
            Some(v as i32)
        } else if letter == negative {
            Some((-v) as i32)
        } else {
            None
        },
        None => None,
    }
}

/// Reads a coordinate from a field of text.
pub fn parse_coordinate(coord: &str, pos: char, neg: char) -> (r: Option<i32>)
    ensures
        r is Some <==> coordinate(coord@, pos, neg) is Some,
        r matches Some(v) ==> coordinate(coord@, pos, neg) == Some(v as int),
{
    let chars = chars_of(coord);
    proof {
        assert(chars@.subrange(0, chars@.len() as int) =~= chars@);
    }
    read_coordinate(&chars, Span { start: 0, end: chars.len() }, pos, neg)
}

} // verus!
