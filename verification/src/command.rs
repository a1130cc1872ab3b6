//! The transcoder's command line for one file: its arguments in their fixed
//! order, and the path of the file it writes.
//!
//! A path is text with `/` between its components. The file's name is what
//! follows the last `/`; its extension begins at the last `.` of the name.
//! The output stands beside the input under the same name, with `_tr` set
//! before the extension.

use vstd::prelude::*;
use crate::error::TrimError;
use crate::seconds::{seconds_text, Seconds};
use crate::text::{chars_of, join, joined, last_index_of, push_text, rfind_char, views};
use crate::window::{
    expression_model,
    is_possible,
    resolution,
    resolve_window,
    ResolvedWindow,
    WindowModel,
};
use vstd::slice::slice_subrange;

verus! {

/// What is to be run for one file, and what to expect of it.
pub struct CommandResult {
    /// The transcoder's arguments, in order.
    pub args: Vec<String>,
    /// The arguments in one line, with a blank between each two.
    pub command_str: String,
    /// The path of the input file.
    pub input_filepath: String,
    /// The name of the input file, without its directory.
    pub input_filename: String,
    /// The name of the output file, without its directory.
    pub output_filename: String,
    /// The path of the output file, which is the last argument.
    pub output_filepath: String,
    /// How long the output will be.
    pub duration: Seconds,
    /// Where in the source the output begins.
    pub seconds_from_start: Seconds,
}

/// Where in `path` the file's name begins.
pub open spec fn name_start(path: Seq<char>) -> int {
    match last_index_of(path, '/', path.len() as int) {
        Some(at) => at + 1,
        None => 0,
    }
}

/// The file's name: what follows the last `/` of `path`.
pub open spec fn file_name(path: Seq<char>) -> Seq<char> {
    path.skip(name_start(path))
}

/// Where in the file name `name` the extension's point stands: at the last
/// `.`, provided that something stands before it and that the name is not
/// `..`.
pub open spec fn extension_point(name: Seq<char>) -> Option<int> {
    match last_index_of(name, '.', name.len() as int) {
        Some(at) => if at > 0 && !(name.len() == 2 && name[0] == '.') {
            Some(at)
        } else {
            None
        },
        None => None,
    }
}

/// Whether `path` names a file with a stem and an extension.
pub open spec fn has_stem_and_extension(path: Seq<char>) -> bool {
    extension_point(file_name(path)) is Some
}

/// The name of the output file for the input file name `name`.
pub open spec fn output_file_name(name: Seq<char>) -> Seq<char> {
    let point = extension_point(name)->Some_0;
    name.take(point) + "_tr"@ + name.skip(point)
}

/// The path of the output file for the input `path`.
pub open spec fn output_file_path(path: Seq<char>) -> Seq<char> {
    path.take(name_start(path)) + output_file_name(file_name(path))
}

/// The arguments that set where the clip begins.
pub open spec fn seek_args(start: int) -> Seq<Seq<char>> {
    if start > 0 {
        seq!["-ss"@, seconds_text(start)]
    } else {
        Seq::empty()
    }
}

/// The arguments that set where the clip ends.
pub open spec fn until_args(end: int) -> Seq<Seq<char>> {
    if end > 0 {
        seq!["-to"@, seconds_text(end)]
    } else {
        Seq::empty()
    }
}

/// The arguments that name the input and ask for progress reports.
pub open spec fn input_args(input: Seq<char>) -> Seq<Seq<char>> {
    seq!["-i"@, input, "-progress"@, "pipe:2"@]
}

/// The arguments that select the first video stream.
pub open spec fn video_args(take_video: bool) -> Seq<Seq<char>> {
    if take_video {
        seq!["-map"@, "0:v:0"@]
    } else {
        Seq::empty()
    }
}

/// The arguments that select the first audio stream.
pub open spec fn audio_args(take_audio: bool) -> Seq<Seq<char>> {
    if take_audio {
        seq!["-map"@, "0:a:0"@]
    } else {
        Seq::empty()
    }
}

/// The arguments that say how to encode: a plain copy, or the filter that
/// removes interlacing.
pub open spec fn encoding_args(skip_encoding: bool) -> Seq<Seq<char>> {
    if skip_encoding {
        seq!["-c"@, "copy"@]
    } else {
        seq!["-vf"@, "yadif"@]
    }
}

/// All arguments, in their order: seek, end position, input, video
/// stream, audio stream, encoding, output.
pub open spec fn plan_args(
    start: int,
    end: int,
    input: Seq<char>,
    output: Seq<char>,
    skip_encoding: bool,
    take_video: bool,
    take_audio: bool,
) -> Seq<Seq<char>> {
    seek_args(start) + until_args(end) + input_args(input) + video_args(take_video) + audio_args(
        take_audio,
    ) + encoding_args(skip_encoding) + seq![output]
}

/// Whether `c` is the command for the window `w` on the file `input`.
pub open spec fn is_command_for(
    c: CommandResult,
    w: WindowModel,
    input: Seq<char>,
    skip_encoding: bool,
    take_video: bool,
    take_audio: bool,
) -> bool {
    &&& views(c.args@) == plan_args(
        w.start,
        w.end,
        input,
        output_file_path(input),
        skip_encoding,
        take_video,
        take_audio,
    )
    &&& c.command_str@ == joined(views(c.args@), " "@)
    &&& c.input_filepath@ == input
    &&& c.input_filename@ == file_name(input)
    &&& c.output_filename@ == output_file_name(file_name(input))
    &&& c.output_filepath@ == output_file_path(input)
    &&& c.duration@ == w.clip
    &&& c.seconds_from_start@ == w.start
}

/// `args` without the `n` arguments that begin at `at`.
pub open spec fn without(args: Seq<Seq<char>>, at: int, n: int) -> Seq<Seq<char>> {
    args.take(at) + args.skip(at + n)
}

/// Each group of arguments stands right behind the groups that come before
/// it in the fixed order, whatever is set: the offset of a group is the
/// total length of the earlier groups that are present.
pub proof fn lemma_groups_in_order(
    start: int,
    end: int,
    input: Seq<char>,
    output: Seq<char>,
    skip_encoding: bool,
    take_video: bool,
    take_audio: bool,
)
    ensures
        ({
            let args = plan_args(start, end, input, output, skip_encoding, take_video, take_audio);
            let seek = seek_args(start).len() as int;
            let until = seek + until_args(end).len();
            let source = until + input_args(input).len();
            let video = source + video_args(take_video).len();
            let audio = video + audio_args(take_audio).len();
            let encoding = audio + encoding_args(skip_encoding).len();
            &&& args.subrange(0, seek) == seek_args(start)
            &&& args.subrange(seek, until) == until_args(end)
            &&& args.subrange(until, source) == input_args(input)
            &&& args.subrange(source, video) == video_args(take_video)
            &&& args.subrange(video, audio) == audio_args(take_audio)
            &&& args.subrange(audio, encoding) == encoding_args(skip_encoding)
            &&& args.subrange(encoding, encoding + 1) == seq![output]
            &&& args.len() == encoding + 1
        }),
{
}

/// Leaving an option out removes its own two arguments and nothing else:
/// what remains keeps its order. This holds of the seek position, the end
/// position, the video stream and the audio stream alike.
pub proof fn lemma_option_only_removes_its_group(
    start: int,
    end: int,
    input: Seq<char>,
    output: Seq<char>,
    skip_encoding: bool,
    take_video: bool,
    take_audio: bool,
)
    requires
        start > 0,
        end > 0,
    ensures
        plan_args(0, end, input, output, skip_encoding, take_video, take_audio) == without(
            plan_args(start, end, input, output, skip_encoding, take_video, take_audio),
            0,
            2,
        ),
        plan_args(start, 0, input, output, skip_encoding, take_video, take_audio) == without(
            plan_args(start, end, input, output, skip_encoding, take_video, take_audio),
            2,
            2,
        ),
        plan_args(start, end, input, output, skip_encoding, false, take_audio) == without(
            plan_args(start, end, input, output, skip_encoding, true, take_audio),
            8,
            2,
        ),
        plan_args(start, end, input, output, skip_encoding, take_video, false) == without(
            plan_args(start, end, input, output, skip_encoding, take_video, true),
            8 + video_args(take_video).len() as int,
            2,
        ),
{
}

/// The names that belong to an input path.
pub struct OutputNames {
    /// The name of the input file, without its directory.
    pub input_filename: String,
    /// The name of the output file, without its directory.
    pub output_filename: String,
    /// The path of the output file.
    pub output_filepath: String,
}

/// Derives the output file's name and path from the input path. `None`
/// where the input names no file with a stem and an extension.
pub fn output_names(input_filepath: &str) -> (r: Option<OutputNames>)
    ensures
        r is Some <==> has_stem_and_extension(input_filepath@),
        r matches Some(n) ==> {
            &&& n.input_filename@ == file_name(input_filepath@)
            &&& n.output_filename@ == output_file_name(file_name(input_filepath@))
            &&& n.output_filepath@ == output_file_path(input_filepath@)
        },
{
    let chars = chars_of(input_filepath);
    let path = chars.as_slice();
    let len: usize = path.len();
    let start: usize = match rfind_char(path, '/') {
        Some(at) => at + 1,
        None => 0,
    };
    let name = slice_subrange(path, start, len);
    let point: usize = match rfind_char(name, '.') {
        Some(at) => at,
        None => {
            return None;
        },
    };
    if point == 0 || (name.len() == 2 && name[0] == '.') {
        return None;
    }
    let directory = input_filepath.substring_char(0, start);
    let stem = input_filepath.substring_char(start, start + point);
    let extension = input_filepath.substring_char(start + point, len);
    let input_filename = input_filepath.substring_char(start, len).to_owned();
    let mut output_filename = stem.to_owned();
    output_filename.append("_tr");
    output_filename.append(extension);
    let mut output_filepath = directory.to_owned();
    output_filepath.append(output_filename.as_str());
    Some(OutputNames { input_filename, output_filename, output_filepath })
}

/// Adds `first` and `second` at the end of `args`.
fn push_pair(args: &mut Vec<String>, first: &str, second: &str)
    ensures
        views(final(args)@) == views(old(args)@) + seq![first@, second@],
{
    push_text(args, first);
    push_text(args, second);
}

/// Adds the arguments that set where the clip begins.
fn push_seek(args: &mut Vec<String>, start: Seconds)
    ensures
        views(final(args)@) == views(old(args)@) + seek_args(start@),
{
    if start.micros > 0 {
        push_pair(args, "-ss", start.to_text().as_str());
    }
}

/// Adds the arguments that set where the clip ends.
fn push_until(args: &mut Vec<String>, end: Seconds)
    ensures
        views(final(args)@) == views(old(args)@) + until_args(end@),
{
    if end.micros > 0 {
        push_pair(args, "-to", end.to_text().as_str());
    }
}

/// Adds the arguments that name the input and ask for progress reports.
fn push_input(args: &mut Vec<String>, input: &str)
    ensures
        views(final(args)@) == views(old(args)@) + input_args(input@),
{
    push_pair(args, "-i", input);
    push_pair(args, "-progress", "pipe:2");
}

/// Adds the arguments that select the first video stream.
fn push_video(args: &mut Vec<String>, take_video: bool)
    ensures
        views(final(args)@) == views(old(args)@) + video_args(take_video),
{
    if take_video {
        push_pair(args, "-map", "0:v:0");
    }
}

/// Adds the arguments that select the first audio stream.
fn push_audio(args: &mut Vec<String>, take_audio: bool)
    ensures
        views(final(args)@) == views(old(args)@) + audio_args(take_audio),
{
    if take_audio {
        push_pair(args, "-map", "0:a:0");
    }
}

/// Adds the arguments that say how to encode.
fn push_encoding(args: &mut Vec<String>, skip_encoding: bool)
    ensures
        views(final(args)@) == views(old(args)@) + encoding_args(skip_encoding),
{
    if skip_encoding {
        push_pair(args, "-c", "copy");
    } else {
        push_pair(args, "-vf", "yadif");
    }
}

/// Builds the command for a resolved window on the file `input_filepath`.
/// No command is built for a window that is not possible: that fails with
/// `ImpossibleWindow`. Else it fails with `InvalidInputPath` exactly where
/// the path names no file with a stem and an extension.
pub fn build_command(
    window: ResolvedWindow,
    input_filepath: &str,
    skip_encoding: bool,
    take_video: bool,
    take_audio: bool,
) -> (r: Result<CommandResult, TrimError>)
    ensures
        match r {
            Ok(c) => is_possible(window@) && has_stem_and_extension(input_filepath@)
                && is_command_for(
                c,
                window@,
                input_filepath@,
                skip_encoding,
                take_video,
                take_audio,
            ),
            Err(e) => if is_possible(window@) {
                e == TrimError::InvalidInputPath && !has_stem_and_extension(input_filepath@)
            } else {
                e == TrimError::ImpossibleWindow
            },
        },
{
    if window.start_seconds.micros < 0 || window.clip_duration.micros <= 0 {
        return Err(TrimError::ImpossibleWindow);
    }
    let names = match output_names(input_filepath) {
        Some(names) => names,
        None => {
            return Err(TrimError::InvalidInputPath);
        },
    };
    let mut args: Vec<String> = Vec::new();
    push_seek(&mut args, window.start_seconds);
    push_until(&mut args, window.end_seconds);
    push_input(&mut args, input_filepath);
    push_video(&mut args, take_video);
    push_audio(&mut args, take_audio);
    push_encoding(&mut args, skip_encoding);
    let ghost before_output = views(args@);
    push_text(&mut args, names.output_filepath.as_str());
    assert(views(args@) == before_output + seq![output_file_path(input_filepath@)]);
    let command_str = join(&args, " ");
    Ok(
        CommandResult {
            args,
            command_str,
            input_filepath: input_filepath.to_owned(),
            input_filename: names.input_filename,
            output_filename: names.output_filename,
            output_filepath: names.output_filepath,
            duration: window.clip_duration,
            seconds_from_start: window.start_seconds,
        },
    )
}

/// What `calc_command_result` returns for each outcome of the resolution:
/// the resolver's error; else, for a path without stem or extension,
/// `InvalidInputPath`; else the command for the resolved window.
pub open spec fn is_command_result(
    r: Result<CommandResult, TrimError>,
    resolved: Result<WindowModel, TrimError>,
    input: Seq<char>,
    skip_encoding: bool,
    take_video: bool,
    take_audio: bool,
) -> bool {
    match resolved {
        Err(e) => r == Err::<CommandResult, TrimError>(e),
        Ok(w) => if has_stem_and_extension(input) {
            r matches Ok(c) && is_command_for(c, w, input, skip_encoding, take_video, take_audio)
        } else {
            r == Err::<CommandResult, TrimError>(TrimError::InvalidInputPath)
        },
    }
}

/// Plans the trimming of one file: resolves the two trim expressions
/// against the source's length and builds the transcoder's command for the
/// window.
pub fn calc_command_result(
    input_filepath: &str,
    duration: Seconds,
    trim_start: &str,
    trim_end: &str,
    skip_encoding: bool,
    take_video: bool,
    take_audio: bool,
) -> (r: Result<CommandResult, TrimError>)
    ensures
        is_command_result(
            r,
            resolution(expression_model(trim_start@), expression_model(trim_end@), duration@),
            input_filepath@,
            skip_encoding,
            take_video,
            take_audio,
        ),
{
    match resolve_window(trim_start, trim_end, duration) {
        Ok(window) => build_command(window, input_filepath, skip_encoding, take_video, take_audio),
        Err(e) => Err(e),
    }
}

} // verus!
