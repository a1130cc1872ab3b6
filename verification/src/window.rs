//! The trim window: from two trim expressions and the length of the
//! source to the boundaries of the clip.
//!
//! A trim expression is a decimal number of seconds, or an offset and a
//! length joined by the marker `dur`. The start expression counts from the
//! beginning of the source and the end expression from its end. A part
//! that is empty, is no decimal text or is not positive counts as unset.

use vstd::prelude::*;
use crate::error::TrimError;
use crate::helpers::{first_half, parse_float, second_half};
use crate::seconds::{
    decimal_micros_or_zero,
    in_parsed_range,
    lemma_text_characters,
    lemma_text_reads_back,
    seconds_text,
    Seconds,
};
use crate::text::{chars_of, contains, includes, occurs_at, trim};

verus! {

/// A trim expression, read.
#[derive(Clone, Copy, Debug, PartialEq, Eq, Structural)]
pub struct TrimExpression {
    /// The plain seconds, or what stands before the marker.
    pub offset: Seconds,
    /// What stands behind the marker; zero without one.
    pub length: Seconds,
    /// Whether the expression holds the marker.
    pub uses_dur: bool,
}

/// The boundaries of the clip within the source.
#[derive(Clone, Copy, Debug, PartialEq, Eq, Structural)]
pub struct ResolvedWindow {
    /// Where the clip begins; never negative.
    pub start_seconds: Seconds,
    /// Where the clip ends, as a position in the source; where it is not
    /// positive the clip runs to the end of the source.
    pub end_seconds: Seconds,
    /// How long the clip is; positive.
    pub clip_duration: Seconds,
}

/// A trim expression as mathematical values.
pub struct ExpressionModel {
    pub offset: int,
    pub length: int,
    pub uses_dur: bool,
}

/// A window as mathematical values, in microseconds.
pub struct WindowModel {
    pub start: int,
    pub end: int,
    pub clip: int,
}

impl View for TrimExpression {
    type V = ExpressionModel;

    open spec fn view(&self) -> ExpressionModel {
        ExpressionModel { offset: self.offset@, length: self.length@, uses_dur: self.uses_dur }
    }
}

impl View for ResolvedWindow {
    type V = WindowModel;

    open spec fn view(&self) -> WindowModel {
        WindowModel {
            start: self.start_seconds@,
            end: self.end_seconds@,
            clip: self.clip_duration@,
        }
    }
}

/// Whether a window is possible: it begins at or after the beginning of the
/// source and has a positive length.
pub open spec fn is_possible(w: WindowModel) -> bool {
    w.start >= 0 && w.clip > 0
}

/// What the trim expression `expr` says.
pub open spec fn expression_model(expr: Seq<char>) -> ExpressionModel {
    if contains(expr, "dur"@) {
        ExpressionModel {
            offset: decimal_micros_or_zero(trim(first_half(expr, "dur"@))),
            length: decimal_micros_or_zero(trim(second_half(expr, "dur"@))),
            uses_dur: true,
        }
    } else {
        ExpressionModel { offset: decimal_micros_or_zero(expr), length: 0, uses_dur: false }
    }
}

/// Whether both parts of an expression are within what a decimal text can
/// name.
pub open spec fn expression_in_range(e: ExpressionModel) -> bool {
    in_parsed_range(e.offset) && in_parsed_range(e.length)
}

/// Whether the two expressions pin one boundary twice: both hold the
/// marker, or one gives a plain offset while the other gives a length.
pub open spec fn conflicting(start: ExpressionModel, end: ExpressionModel) -> bool {
    ||| start.uses_dur && end.uses_dur
    ||| end.offset > 0 && start.length > 0
    ||| start.offset > 0 && end.length > 0
}

/// Where the clip ends, as the expressions give it: the source's length
/// less the end offset where that is set, else the start offset plus the
/// start length where that is set, else zero for "the end of the source".
pub open spec fn end_position(start: ExpressionModel, end: ExpressionModel, duration: int) -> int {
    if end.offset > 0 {
        duration - end.offset
    } else if start.length > 0 {
        start.offset + start.length
    } else {
        0
    }
}

/// Where the clip begins, before it is held at zero: the end position less
/// the end length where that is set, else the start offset.
pub open spec fn start_position(start: ExpressionModel, end: ExpressionModel, duration: int) -> int {
    if end.length > 0 {
        end_position(start, end, duration) - end.length
    } else {
        start.offset
    }
}

/// The window that the two expressions describe, be it possible or not.
pub open spec fn window_model(start: ExpressionModel, end: ExpressionModel, duration: int) -> WindowModel {
    let from = start_position(start, end, duration);
    let begin = if from > 0 {
        from
    } else {
        0
    };
    let until = end_position(start, end, duration);
    WindowModel {
        start: begin,
        end: until,
        clip: (if until > 0 {
            until
        } else {
            duration
        }) - begin,
    }
}

/// What is cut off the end of the source: the source's length less the end
/// position where one is set, else nothing.
pub open spec fn trimmed_from_end(w: WindowModel, duration: int) -> int {
    if w.end > 0 {
        duration - w.end
    } else {
        0
    }
}

/// The outcome of resolving two expressions against a source of the given
/// length. The first of these that holds decides: a conflict between the
/// expressions; a source without positive length; an end offset that
/// leaves nothing of the source; a clip without positive length. Where none
/// holds, the outcome is the window.
pub open spec fn resolution(start: ExpressionModel, end: ExpressionModel, duration: int) -> Result<
    WindowModel,
    TrimError,
> {
    if conflicting(start, end) {
        Err(TrimError::ConflictingTrimSpec)
    } else if duration <= 0 {
        Err(TrimError::DurationProbeFailed)
    } else if end.offset > 0 && duration - end.offset <= 0 {
        Err(TrimError::ImpossibleWindow)
    } else if window_model(start, end, duration).clip <= 0 {
        Err(TrimError::ImpossibleWindow)
    } else {
        Ok(window_model(start, end, duration))
    }
}

/// Whether `r` is the outcome `expected`, the window taken by its view.
pub open spec fn is_resolution(
    r: Result<ResolvedWindow, TrimError>,
    expected: Result<WindowModel, TrimError>,
) -> bool {
    match r {
        Ok(w) => expected == Ok::<WindowModel, TrimError>(w@),
        Err(e) => expected == Err::<WindowModel, TrimError>(e),
    }
}

/// The length of a resolved clip is the source's length less what is cut
/// off at the start and what is cut off at the end, and it is positive.
pub proof fn lemma_clip_duration(start: ExpressionModel, end: ExpressionModel, duration: int)
    requires
        resolution(start, end, duration) is Ok,
    ensures
        ({
            let w = resolution(start, end, duration)->Ok_0;
            &&& w.clip == duration - w.start - trimmed_from_end(w, duration)
            &&& w.clip > 0
            &&& is_possible(w)
        }),
{
}

/// Resolving is a function of its inputs: two outcomes for the same
/// expressions and the same source length are the same.
pub proof fn lemma_resolution_is_deterministic(
    trim_start: Seq<char>,
    trim_end: Seq<char>,
    duration: int,
    first: Result<ResolvedWindow, TrimError>,
    second: Result<ResolvedWindow, TrimError>,
)
    requires
        is_resolution(
            first,
            resolution(expression_model(trim_start), expression_model(trim_end), duration),
        ),
        is_resolution(
            second,
            resolution(expression_model(trim_start), expression_model(trim_end), duration),
        ),
    ensures
        first == second,
{
}

/// The text of a time is a trim expression without marker, whose offset is
/// that time.
pub proof fn lemma_text_is_plain_offset(micros: int)
    requires
        in_parsed_range(micros),
    ensures
        expression_model(seconds_text(micros)) == (ExpressionModel {
            offset: micros,
            length: 0,
            uses_dur: false,
        }),
{
    let text = seconds_text(micros);
    lemma_text_reads_back(micros);
    lemma_text_characters(micros);
    reveal_strlit("dur");
    assert forall|at: int| !occurs_at(text, "dur"@, at) by {
        if occurs_at(text, "dur"@, at) {
            assert(text.subrange(at, at + 3)[0] == text[at]);
        }
    }
}

impl TrimExpression {
    /// Reads a trim expression. With the marker `dur` in it, what stands
    /// before the marker is the offset and what stands behind it the
    /// length, each trimmed of white space; without the marker all of it is
    /// the offset and the length is zero. A part that is no decimal text
    /// counts zero.
    pub fn parse(expr: &str) -> (r: TrimExpression)
        ensures
            r@ == expression_model(expr@),
            expression_in_range(r@),
    {
        let chars = chars_of(expr);
        let marker = chars_of("dur");
        if includes(chars.as_slice(), marker.as_slice()) {
            let parts = parse_float(expr, "dur");
            TrimExpression { offset: parts.before_float, length: parts.after_float, uses_dur: true }
        } else {
            TrimExpression {
                offset: Seconds::parse_or_zero(expr),
                length: Seconds::zero(),
                uses_dur: false,
            }
        }
    }
}

/// Resolves two expressions that were read already.
pub fn resolve_expressions(
    start: TrimExpression,
    end: TrimExpression,
    source_duration: Seconds,
) -> (r: Result<ResolvedWindow, TrimError>)
    requires
        expression_in_range(start@),
        expression_in_range(end@),
    ensures
        is_resolution(r, resolution(start@, end@, source_duration@)),
        r matches Ok(w) ==> is_possible(w@),
{
    if start.uses_dur && end.uses_dur {
        return Err(TrimError::ConflictingTrimSpec);
    }
    if end.offset.micros > 0 && start.length.micros > 0 {
        return Err(TrimError::ConflictingTrimSpec);
    }
    if start.offset.micros > 0 && end.length.micros > 0 {
        return Err(TrimError::ConflictingTrimSpec);
    }
    let duration: i64 = source_duration.micros;
    if duration <= 0 {
        return Err(TrimError::DurationProbeFailed);
    }
    let mut until: i64 = 0;
    if end.offset.micros > 0 {
        until = duration - end.offset.micros;
        if until <= 0 {
            return Err(TrimError::ImpossibleWindow);
        }
    } else if start.length.micros > 0 {
        until = start.offset.micros + start.length.micros;
    }
    let from: i64 = if end.length.micros > 0 {
        until - end.length.micros
    } else {
        start.offset.micros
    };
    let begin: i64 = if from > 0 {
        from
    } else {
        0
    };
    let clip: i64 = (if until > 0 {
        until
    } else {
        duration
    }) - begin;
    if clip <= 0 {
        return Err(TrimError::ImpossibleWindow);
    }
    Ok(
        ResolvedWindow {
            start_seconds: Seconds { micros: begin },
            end_seconds: Seconds { micros: until },
            clip_duration: Seconds { micros: clip },
        },
    )
}

/// Resolves the start and the end expression against a source of the given
/// length.
pub fn resolve_window(trim_start: &str, trim_end: &str, source_duration: Seconds) -> (r: Result<
    ResolvedWindow,
    TrimError,
>)
    ensures
        is_resolution(
            r,
            resolution(expression_model(trim_start@), expression_model(trim_end@), source_duration@),
        ),
        r matches Ok(w) ==> is_possible(w@) && w@.clip == source_duration@ - w@.start
            - trimmed_from_end(w@, source_duration@),
{
    let start = TrimExpression::parse(trim_start);
    let end = TrimExpression::parse(trim_end);
    resolve_expressions(start, end, source_duration)
}

} // verus!
