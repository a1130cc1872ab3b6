//! The length of a source, as the duration probe reports it.
//!
//! The probe prints one decimal number of seconds and ends the line.

use vstd::prelude::*;
use crate::error::TrimError;
use crate::seconds::{decimal_micros, in_parsed_range, parse_decimal, Seconds};
use crate::text::{chars_of, push_text, views};
use vstd::slice::slice_subrange;

verus! {

/// What the probe printed, without the character that ends the line.
pub open spec fn probe_field(output: Seq<char>) -> Seq<char> {
    if output.len() > 0 {
        output.drop_last()
    } else {
        output
    }
}

/// The length that the probe reports, in microseconds: the decimal number
/// that it printed, where the probe succeeded and the number is positive.
pub open spec fn probed_micros(output: Seq<char>, exit_success: bool) -> Option<int> {
    if exit_success {
        match decimal_micros(probe_field(output)) {
            Some(m) => if m > 0 {
                Some(m)
            } else {
                None
            },
            None => None,
        }
    } else {
        None
    }
}

/// Reads the length of a source from what the duration probe printed and
/// how it ended. Fails with `DurationProbeFailed` where the probe failed,
/// printed no decimal number, or printed one that is not positive.
pub fn calc_duration(probe_output: &str, exit_success: bool) -> (r: Result<Seconds, TrimError>)
    ensures
        match r {
            Ok(d) => probed_micros(probe_output@, exit_success) == Some(d@) && 0 < d@
                && in_parsed_range(d@),
            Err(e) => e == TrimError::DurationProbeFailed && probed_micros(
                probe_output@,
                exit_success,
            ) is None,
        },
{
    if !exit_success {
        return Err(TrimError::DurationProbeFailed);
    }
    let chars = chars_of(probe_output);
    let text = chars.as_slice();
    let field = if text.len() > 0 {
        slice_subrange(text, 0, text.len() - 1)
    } else {
        text
    };
    match parse_decimal(field) {
        Some(d) => if d.micros > 0 {
            Ok(d)
        } else {
            Err(TrimError::DurationProbeFailed)
        },
        None => Err(TrimError::DurationProbeFailed),
    }
}

/// The probe's arguments for the file `filepath`: errors only, the
/// duration of the container, as one bare number.
pub fn calc_duration_args(filepath: &str) -> (args: Vec<String>)
    ensures
        views(args@) == seq![
            "-v"@,
            "error"@,
            "-show_entries"@,
            "format=duration"@,
            "-of"@,
            "csv=p=0"@,
            filepath@,
        ],
{
    let mut args: Vec<String> = Vec::new();
    push_text(&mut args, "-v");
    push_text(&mut args, "error");
    push_text(&mut args, "-show_entries");
    push_text(&mut args, "format=duration");
    push_text(&mut args, "-of");
    push_text(&mut args, "csv=p=0");
    push_text(&mut args, filepath);
    args
}

} // verus!
