//! What the batch driver decides for each file: whether the file is one
//! of those asked for, whether anything is to be trimmed, and which trim
//! expressions go to the resolver, those given by hand or those derived
//! from detected frames.

use vstd::prelude::*;
use crate::seconds::{in_parsed_range, micros_view, seconds_text, Seconds};
use crate::text::{chars_of, contains, ends_with, includes, matches_at};
use crate::window::{expression_model, lemma_text_is_plain_offset, ExpressionModel};

verus! {

/// What is added to the time of the last intro frame to get the start of
/// the clip, in microseconds.
pub const INTRO_MARGIN: i64 = 0;

/// What is added to the time of the first outro frame to get the end of
/// the clip, in microseconds.
pub const OUTRO_MARGIN: i64 = 1_000_000;

/// Whether the file at `path` is one of those asked for: its path ends
/// with `ext` and, where a filter is given, holds the filter.
pub open spec fn is_selected(path: Seq<char>, ext: Seq<char>, filter: Seq<char>) -> bool {
    ends_with(path, ext) && (filter.len() == 0 || contains(path, filter))
}

/// The boundary that a detected frame sets: the frame's time plus the
/// margin, where a frame was detected and that position is not negative.
pub open spec fn boundary(detected: Option<int>, margin: int) -> Option<int> {
    match detected {
        Some(t) => if t + margin >= 0 {
            Some(t + margin)
        } else {
            None
        },
        None => None,
    }
}

/// The start expression for a file: the boundary that the detected intro
/// frame sets, where it sets one; else the expression given by hand.
pub open spec fn start_expression_text(detected: Option<int>, manual: Seq<char>) -> Seq<char> {
    match boundary(detected, INTRO_MARGIN as int) {
        Some(at) => seconds_text(at),
        None => manual,
    }
}

/// The end expression for a file: the time from the boundary that the
/// detected outro frame sets to the end of the source, where it sets one;
/// else the expression given by hand.
pub open spec fn end_expression_text(
    detected: Option<int>,
    duration: int,
    manual: Seq<char>,
) -> Seq<char> {
    match boundary(detected, OUTRO_MARGIN as int) {
        Some(at) => seconds_text(duration - at),
        None => manual,
    }
}

/// A detected frame decides the boundary: the expression made for it is
/// one without marker, whose offset is the boundary at the start, and the
/// rest of the source behind the boundary at the end.
pub proof fn lemma_detected_frame_is_offset(t: int, duration: int, manual: Seq<char>)
    requires
        in_parsed_range(t),
        in_parsed_range(duration),
    ensures
        t + INTRO_MARGIN >= 0 ==> expression_model(start_expression_text(Some(t), manual)) == (
        ExpressionModel { offset: t + INTRO_MARGIN, length: 0, uses_dur: false }),
        t + OUTRO_MARGIN >= 0 && in_parsed_range(duration - (t + OUTRO_MARGIN))
            ==> expression_model(end_expression_text(Some(t), duration, manual)) == (
        ExpressionModel { offset: duration - (t + OUTRO_MARGIN), length: 0, uses_dur: false }),
{
    if t + INTRO_MARGIN >= 0 {
        lemma_text_is_plain_offset(t + INTRO_MARGIN);
    }
    if t + OUTRO_MARGIN >= 0 && in_parsed_range(duration - (t + OUTRO_MARGIN)) {
        lemma_text_is_plain_offset(duration - (t + OUTRO_MARGIN));
    }
}

/// Whether the file at `path` is one of those asked for.
pub fn selects(path: &str, ext: &str, filter: &str) -> (r: bool)
    ensures
        r == is_selected(path@, ext@, filter@),
{
    let hay = chars_of(path);
    let tail = chars_of(ext);
    if tail.len() > hay.len() {
        return false;
    }
    if !matches_at(hay.as_slice(), tail.as_slice(), hay.len() - tail.len()) {
        return false;
    }
    let needle = chars_of(filter);
    needle.len() == 0 || includes(hay.as_slice(), needle.as_slice())
}

/// Whether anything is to be trimmed: an expression is given by hand, or
/// a frame to look for.
pub fn wants_trim(trim_start: &str, intro_frame: &str, trim_end: &str, outro_frame: &str) -> (r:
    bool)
    ensures
        r == (trim_start@.len() > 0 || intro_frame@.len() > 0 || trim_end@.len() > 0
            || outro_frame@.len() > 0),
{
    !trim_start.is_empty() || !intro_frame.is_empty() || !trim_end.is_empty()
        || !outro_frame.is_empty()
}

/// The boundary that a detected intro frame sets.
pub fn intro_boundary(detected: Option<Seconds>) -> (r: Option<Seconds>)
    requires
        detected matches Some(t) ==> in_parsed_range(t@),
    ensures
        micros_view(r) == boundary(micros_view(detected), INTRO_MARGIN as int),
{
    match detected {
        Some(t) => if t.micros + INTRO_MARGIN >= 0 {
            Some(Seconds { micros: t.micros + INTRO_MARGIN })
        } else {
            None
        },
        None => None,
    }
}

/// The boundary that a detected outro frame sets.
pub fn outro_boundary(detected: Option<Seconds>) -> (r: Option<Seconds>)
    requires
        detected matches Some(t) ==> in_parsed_range(t@),
    ensures
        micros_view(r) == boundary(micros_view(detected), OUTRO_MARGIN as int),
{
    match detected {
        Some(t) => if t.micros + OUTRO_MARGIN >= 0 {
            Some(Seconds { micros: t.micros + OUTRO_MARGIN })
        } else {
            None
        },
        None => None,
    }
}

/// The start expression for a file.
pub fn start_expression(detected: Option<Seconds>, manual: &str) -> (r: String)
    requires
        detected matches Some(t) ==> in_parsed_range(t@),
    ensures
        r@ == start_expression_text(micros_view(detected), manual@),
{
    match intro_boundary(detected) {
        Some(at) => at.to_text(),
        None => manual.to_owned(),
    }
}

/// The end expression for a file.
pub fn end_expression(detected: Option<Seconds>, duration: Seconds, manual: &str) -> (r: String)
    requires
        detected matches Some(t) ==> in_parsed_range(t@),
        in_parsed_range(duration@),
    ensures
        r@ == end_expression_text(micros_view(detected), duration@, manual@),
{
    match outro_boundary(detected) {
        Some(at) => Seconds { micros: duration.micros - at.micros }.to_text(),
        None => manual.to_owned(),
    }
}

} // verus!
