//! Splitting a field in two at a separator and reading both halves as
//! decimal numbers.

use vstd::prelude::*;
use crate::seconds::{decimal_micros_or_zero, in_parsed_range, parse_decimal_or_zero, Seconds};
use crate::text::{chars_of, find, first_occurrence, trim, trim_bounds};
use vstd::slice::slice_subrange;

verus! {

/// The two halves of a field, as text and as numbers.
pub struct PartsFloat<'a> {
    /// What stands before the separator, trimmed.
    pub before_str: &'a str,
    /// The number that `before_str` denotes, zero where it denotes none.
    pub before_float: Seconds,
    /// What stands between the separator and its next occurrence, trimmed.
    pub after_str: &'a str,
    /// The number that `after_str` denotes, zero where it denotes none.
    pub after_float: Seconds,
}

/// Where the search for the second separator starts, given that the first
/// one stands at `at`: behind it, and at least one character further on.
pub open spec fn second_search_start(sep: Seq<char>, at: int) -> int {
    if sep.len() == 0 {
        at + 1
    } else {
        at + sep.len()
    }
}

/// Where the half behind the separator at `at` ends: at the next
/// separator, or at the end of the text.
pub open spec fn second_half_end(s: Seq<char>, sep: Seq<char>, at: int) -> int {
    match first_occurrence(s, sep, second_search_start(sep, at)) {
        Some(end) => end,
        None => s.len() as int,
    }
}

/// What stands before the first `sep` in `s`; all of `s` where `sep` does
/// not occur.
pub open spec fn first_half(s: Seq<char>, sep: Seq<char>) -> Seq<char> {
    match first_occurrence(s, sep, 0) {
        Some(at) => s.take(at),
        None => s,
    }
}

/// What stands between the first `sep` in `s` and the next one, or the end
/// of `s`; nothing where `sep` does not occur.
pub open spec fn second_half(s: Seq<char>, sep: Seq<char>) -> Seq<char> {
    match first_occurrence(s, sep, 0) {
        Some(at) => s.subrange(at + sep.len(), second_half_end(s, sep, at)),
        None => Seq::empty(),
    }
}

/// Splits `text` at `splitter` and reads both halves, each trimmed of white
/// space, as decimal numbers. A half that is no decimal text counts zero.
/// Where the splitter does not occur, all of `text` is the first half and
/// the second is empty. An empty splitter stands before every character, so
/// the first half is empty and the second is the first character.
pub fn parse_float<'a>(text: &'a str, splitter: &'a str) -> (r: PartsFloat<'a>)
    ensures
        r.before_str@ == trim(first_half(text@, splitter@)),
        r.after_str@ == trim(second_half(text@, splitter@)),
        r.before_float@ == decimal_micros_or_zero(r.before_str@),
        r.after_float@ == decimal_micros_or_zero(r.after_str@),
        in_parsed_range(r.before_float@),
        in_parsed_range(r.after_float@),
{
    let chars = chars_of(text);
    let sep = chars_of(splitter);
    let s = chars.as_slice();
    let len: usize = s.len();
    let (first_end, second_start, second_end): (usize, usize, usize) = match find(
        s,
        sep.as_slice(),
        0,
    ) {
        Some(at) => {
            let from: usize = at + sep.len();
            let end: usize = if at >= len {
                len
            } else {
                let start: usize = if sep.len() == 0 {
                    at + 1
                } else {
                    from
                };
                match find(s, sep.as_slice(), start) {
                    Some(next) => next,
                    None => len,
                }
            };
            (at, from, end)
        },
        None => (len, len, len),
    };
    proof {
        if first_occurrence(s@, sep@, 0) is None {
            assert(s@.subrange(0, len as int) == s@);
        }
    }
    let (a, b) = trim_bounds(s, 0, first_end);
    let (c, d) = trim_bounds(s, second_start, second_end);
    PartsFloat {
        before_str: text.substring_char(a, b),
        before_float: parse_decimal_or_zero(slice_subrange(s, a, b)),
        after_str: text.substring_char(c, d),
        after_float: parse_decimal_or_zero(slice_subrange(s, c, d)),
    }
}

} // verus!
