//! Decimal integers as they are written in the fields of a line.
//!
//! An unsigned number is an optional `+` followed by one or more ASCII digits.
//! A signed number may start with `-` instead. Nothing else is a number: no
//! blanks, no separators, no decimal point, and no value beyond the bound that
//! the caller gives.

use vstd::prelude::*;
use crate::text::Span;

verus! {

/// Whether `c` is one of the ten ASCII decimal digits.
pub open spec fn is_digit(c: char) -> bool {
    '0' <= c <= '9'
}

/// The value of a decimal digit; zero for any other character.
pub open spec fn digit_value(c: char) -> nat {
    if is_digit(c) {
        (c as u32 - '0' as u32) as nat
    } else {
        0
    }
}

/// Whether `s` holds decimal digits only.
pub open spec fn all_digits(s: Seq<char>) -> bool {
    forall|i: int| 0 <= i < s.len() ==> is_digit(#[trigger] s[i])
}

/// The number that the digits of `s` write in base ten.
pub open spec fn digits_value(s: Seq<char>) -> nat
    decreases s.len(),
{
    if s.len() == 0 {
        0
    } else {
        10 * digits_value(s.drop_last()) + digit_value(s.last())
    }
}

/// The number that a run of digits writes, if `s` is a non-empty run of digits
/// whose value is at most `max`.
pub open spec fn parse_digits(s: Seq<char>, max: nat) -> Option<nat> {
    if s.len() > 0 && all_digits(s) && digits_value(s) <= max {
        Some(digits_value(s))
    } else {
        None
    }
}

/// The unsigned number that `s` writes, if it writes one that is at most `max`.
pub open spec fn parse_unsigned(s: Seq<char>, max: nat) -> Option<nat> {
    if s.len() > 0 && s[0] == '+' {
        parse_digits(s.skip(1), max)
    } else {
        parse_digits(s, max)
    }
}

/// The signed number that `s` writes, if it writes one between `-min_magnitude`
/// and `max`.
pub open spec fn parse_signed(s: Seq<char>, min_magnitude: nat, max: nat) -> Option<int> {
    if s.len() > 0 && s[0] == '-' {
        match parse_digits(s.skip(1), min_magnitude) {
            Some(v) => Some(-(v as int)),
            None => None,
        }
    } else {
        match parse_unsigned(s, max) {
            Some(v) => Some(v as int),
            None => None,
        }
    }
}

/// The value of a run of digits never falls when the run is extended.
pub proof fn lemma_digits_value_grows(s: Seq<char>, k: int)
    requires
        0 <= k <= s.len(),
    ensures
        digits_value(s.take(k)) <= digits_value(s),
    decreases s.len(),
{
    if k < s.len() {
        assert(s.drop_last().take(k) =~= s.take(k));
        lemma_digits_value_grows(s.drop_last(), k);
    } else {
        assert(s.take(k) =~= s);
    }
}

/// Tests whether a character is an ASCII decimal digit.
pub fn char_is_digit(c: char) -> (b: bool)
    ensures
        b == is_digit(c),
{
    '0' <= c && c <= '9'
}

/// Reads the run of digits that `span` covers.
pub fn read_digits(chars: &Vec<char>, span: Span, max: u32) -> (r: Option<u32>)
    requires
        span.within(chars@.len()),
    ensures
        r is Some <==> parse_digits(span.of(chars@), max as nat) is Some,
        r matches Some(v) ==> parse_digits(span.of(chars@), max as nat) == Some(v as nat),
{
    if span.start == span.end {
        return None;
    }
    let ghost run = span.of(chars@);
    let mut acc: u32 = 0;
    let mut i: usize = span.start;
    proof {
        assert(run.take(0) =~= Seq::<char>::empty());
    }
    while i < span.end
        invariant
            span.within(chars@.len()),
            span.start <= i <= span.end,
            run == span.of(chars@),
            all_digits(run.take(i - span.start)),
            acc == digits_value(run.take(i - span.start)),
            acc <= max,
        decreases span.end - i,
    {
        let c = chars[i];
        let ghost k = i - span.start;
        proof {
            assert(run[k] == c);
            assert(run.take(k + 1).drop_last() =~= run.take(k));
            assert(run.take(k + 1).last() == c);
        }
        if !char_is_digit(c) {
            return None;
        }
        let d: u64 = (c as u32 - '0' as u32) as u64;
        let next: u64 = 10 * (acc as u64) + d;
        if next > max as u64 {
            proof {
                lemma_digits_value_grows(run, k + 1);
            }
            return None;
        }
        acc = next as u32;
        i = i + 1;
    }
    proof {
        assert(run.take(i - span.start) =~= run);
    }
    Some(acc)
}

/// Reads the unsigned number that `span` covers.
pub fn read_unsigned(chars: &Vec<char>, span: Span, max: u32) -> (r: Option<u32>)
    requires
        span.within(chars@.len()),
    ensures
        r is Some <==> parse_unsigned(span.of(chars@), max as nat) is Some,
        r matches Some(v) ==> parse_unsigned(span.of(chars@), max as nat) == Some(v as nat),
{
    if span.start < span.end && chars[span.start] == '+' {
        proof {
            assert(span.of(chars@).skip(1) =~= chars@.subrange(span.start + 1, span.end as int));
        }
        read_digits(chars, Span { start: span.start + 1, end: span.end }, max)
    } else {
        read_digits(chars, span, max)
    }
}

/// Reads the signed number that `span` covers.
pub fn read_signed(chars: &Vec<char>, span: Span, min_magnitude: u32, max: u32) -> (r: Option<i64>)
    requires
        span.within(chars@.len()),
    ensures
        r is Some <==> parse_signed(span.of(chars@), min_magnitude as nat, max as nat) is Some,
        r matches Some(v) ==> parse_signed(span.of(chars@), min_magnitude as nat, max as nat)
            == Some(v as int),
{
    if span.start < span.end && chars[span.start] == '-' {
        proof {
            assert(span.of(chars@).skip(1) =~= chars@.subrange(span.start + 1, span.end as int));
        }
        match read_digits(chars, Span { start: span.start + 1, end: span.end }, min_magnitude) {
            Some(v) => Some(-(v as i64)),
            None => None,
        }
    } else {
        match read_unsigned(chars, span, max) {
            Some(v) => Some(v as i64),
            None => None,
        }
    }
}

} // verus!
