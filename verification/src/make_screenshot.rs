//! Taking one still picture out of a source.

use vstd::prelude::*;
use crate::text::{push_text, views};

verus! {

/// The transcoder's arguments for writing the frame at `frame_time` of
/// `input_filepath` to `output_filepath`, as one picture of high quality.
pub fn make_screenshot(input_filepath: &str, output_filepath: &str, frame_time: &str) -> (args: Vec<
    String,
>)
    ensures
        views(args@) == seq![
            "-ss"@,
            frame_time@,
            "-i"@,
            input_filepath@,
            "-vframes"@,
            "1"@,
            "-q:v"@,
            "2"@,
            output_filepath@,
        ],
{
    let mut args: Vec<String> = Vec::new();
    push_text(&mut args, "-ss");
    push_text(&mut args, frame_time);
    push_text(&mut args, "-i");
    push_text(&mut args, input_filepath);
    push_text(&mut args, "-vframes");
    push_text(&mut args, "1");
    push_text(&mut args, "-q:v");
    push_text(&mut args, "2");
    push_text(&mut args, output_filepath);
    args
}

} // verus!
