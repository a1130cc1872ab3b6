//! Watching the transcoder: what each byte of its diagnostic stream means
//! for the progress of the run.
//!
//! The transcoder writes progress reports (`key=value` lines) and free
//! text on one stream. It may also ask whether to overwrite a file: a
//! prompt that ends in a blank, not in a newline, so the stream is read
//! byte by byte. The monitor keeps the bytes of the current line. A blank
//! that completes the prompt asks for an answer; a newline completes a
//! line, which is read and dropped.

use vstd::prelude::*;
use crate::error::TrimError;
use crate::seconds::{integer_value, parse_integer, rounded_seconds, Seconds};
use crate::text::{
    after_last,
    chars_of,
    contains,
    decode_latin1,
    includes,
    latin1,
    rfind,
    trim,
    trim_bounds,
};
use vstd::slice::slice_subrange;

verus! {

/// The byte that ends a word of the prompt: a blank.
pub const WORD_END: u8 = 32;

/// The byte that ends a line.
pub const LINE_END: u8 = 10;

/// How many microseconds of output make one millisecond.
pub const MICROS_PER_MILLI: u64 = 1000;

/// How many microseconds of output make one second of progress.
pub const MICROS_PER_PROGRESS_SECOND: u64 = 1_000_000;

/// The text by which the transcoder's question is known.
pub open spec fn overwrite_prompt() -> Seq<char> {
    "Overwrite? [y/N]"@
}

/// The text by which the transcoder says that it leaves the existing file
/// alone and ends. It is the wording of the transcoder versions in use;
/// another wording is not recognised, and the run then counts as failed.
pub open spec fn declined_message() -> Seq<char> {
    "Not overwriting - exiting"@
}

/// The key of the line that reports how much output has been written.
pub open spec fn progress_key() -> Seq<char> {
    "out_time_ms"@
}

/// What a byte makes of the line that it is added to.
#[derive(Clone, Copy, Debug, PartialEq, Eq, Structural)]
pub enum LineState {
    /// The line goes on.
    Accumulating,
    /// The line holds the question and waits for an answer.
    PromptPending,
    /// The line is complete.
    LineComplete,
}

/// What the supervisor is to do after a byte.
#[derive(Debug, PartialEq, Eq)]
pub enum MonitorAction {
    /// Nothing: read the next byte.
    Continue,
    /// Show these bytes at once, read one line of answer and send it to
    /// the transcoder as it is.
    AskUser(Vec<u8>),
    /// Set the progress indicator to this many seconds.
    ShowProgress(u64),
}

/// The state of one supervised run.
#[derive(Debug, PartialEq, Eq)]
pub struct ProgressMonitor {
    /// The bytes of the current line.
    pub buffer: Vec<u8>,
    /// The output time last reported, in milliseconds.
    pub elapsed_ms: u64,
    /// Whether any progress has been reported.
    pub started: bool,
    /// Whether the question has been asked and answered.
    pub prompt_answered: bool,
    /// Whether the transcoder has said that it ends without overwriting.
    pub soft_exit: bool,
}

/// An action as mathematical values.
pub enum ActionModel {
    Continue,
    AskUser(Seq<u8>),
    ShowProgress(nat),
}

/// A monitor as mathematical values.
pub struct MonitorModel {
    pub line: Seq<u8>,
    pub elapsed_ms: nat,
    pub started: bool,
    pub prompt_answered: bool,
    pub soft_exit: bool,
}

impl View for MonitorAction {
    type V = ActionModel;

    open spec fn view(&self) -> ActionModel {
        match self {
            MonitorAction::Continue => ActionModel::Continue,
            MonitorAction::AskUser(prompt) => ActionModel::AskUser(prompt@),
            MonitorAction::ShowProgress(seconds) => ActionModel::ShowProgress(*seconds as nat),
        }
    }
}

impl View for ProgressMonitor {
    type V = MonitorModel;

    open spec fn view(&self) -> MonitorModel {
        MonitorModel {
            line: self.buffer@,
            elapsed_ms: self.elapsed_ms as nat,
            started: self.started,
            prompt_answered: self.prompt_answered,
            soft_exit: self.soft_exit,
        }
    }
}

/// The state before the first byte.
pub open spec fn initial_model() -> MonitorModel {
    MonitorModel {
        line: Seq::empty(),
        elapsed_ms: 0,
        started: false,
        prompt_answered: false,
        soft_exit: false,
    }
}

/// What the byte `byte` makes of `line`, which ends in it.
pub open spec fn line_state(line: Seq<u8>, byte: u8) -> LineState {
    if byte == WORD_END && contains(latin1(line), overwrite_prompt()) {
        LineState::PromptPending
    } else if byte == LINE_END {
        LineState::LineComplete
    } else {
        LineState::Accumulating
    }
}

/// The output time, in microseconds, that a line reports: the whole number
/// behind the last `=` of a line that holds the progress key, where that
/// number is not negative.
pub open spec fn reported_micros(line: Seq<u8>) -> Option<nat> {
    let text = latin1(line);
    if contains(text, progress_key()) {
        match integer_value(trim(after_last(text, "="@))) {
            Some(v) => if v >= 0 {
                Some(v as nat)
            } else {
                None
            },
            None => None,
        }
    } else {
        None
    }
}

/// Whether a line says that the transcoder ends without overwriting.
pub open spec fn says_declined(line: Seq<u8>) -> bool {
    contains(latin1(line), declined_message())
}

/// The state after a complete line, and what to do about it.
pub open spec fn complete_line(m: MonitorModel, line: Seq<u8>) -> (MonitorModel, ActionModel) {
    let soft_exit = m.soft_exit || says_declined(line);
    match reported_micros(line) {
        Some(micros) => (
            MonitorModel {
                line: Seq::empty(),
                elapsed_ms: micros / (MICROS_PER_MILLI as nat),
                started: true,
                prompt_answered: m.prompt_answered,
                soft_exit,
            },
            ActionModel::ShowProgress(micros / (MICROS_PER_PROGRESS_SECOND as nat)),
        ),
        None => (
            MonitorModel {
                line: Seq::empty(),
                elapsed_ms: m.elapsed_ms,
                started: m.started,
                prompt_answered: m.prompt_answered,
                soft_exit,
            },
            ActionModel::Continue,
        ),
    }
}

/// The state after one more byte, and what to do about it.
pub open spec fn step(m: MonitorModel, byte: u8) -> (MonitorModel, ActionModel) {
    let line = m.line.push(byte);
    match line_state(line, byte) {
        LineState::Accumulating => (
            MonitorModel {
                line,
                elapsed_ms: m.elapsed_ms,
                started: m.started,
                prompt_answered: m.prompt_answered,
                soft_exit: m.soft_exit,
            },
            ActionModel::Continue,
        ),
        LineState::PromptPending => (
            MonitorModel {
                line: Seq::empty(),
                elapsed_ms: m.elapsed_ms,
                started: m.started,
                prompt_answered: true,
                soft_exit: m.soft_exit,
            },
            ActionModel::AskUser(line),
        ),
        LineState::LineComplete => complete_line(m, line),
    }
}

/// The state after a run of bytes, and the actions that they ask for, in
/// order, those left out that ask for nothing.
pub open spec fn run(m: MonitorModel, bytes: Seq<u8>) -> (MonitorModel, Seq<ActionModel>)
    decreases bytes.len(),
{
    if bytes.len() == 0 {
        (m, Seq::empty())
    } else {
        let (before, actions) = run(m, bytes.drop_last());
        let (after, action) = step(before, bytes.last());
        (
            after,
            if action is Continue {
                actions
            } else {
                actions.push(action)
            },
        )
    }
}

/// The views of a list of actions.
pub open spec fn action_views(actions: Seq<MonitorAction>) -> Seq<ActionModel> {
    actions.map_values(|a: MonitorAction| a@)
}

/// Whether a run that ended in the state `m` with the given exit status
/// counts as done: the transcoder succeeded, or it said that it ends
/// without overwriting.
pub open spec fn completed(m: MonitorModel, exit_success: bool) -> bool {
    exit_success || m.soft_exit
}

/// Whether `r` is the outcome of a run that ended in `m`.
pub open spec fn is_outcome(r: Result<(), TrimError>, m: MonitorModel, exit_success: bool) -> bool {
    match r {
        Ok(_) => completed(m, exit_success),
        Err(e) => !completed(m, exit_success) && (e matches TrimError::TranscodeFailed(d) && d@
            == m.line),
    }
}

/// Reading a stream in two parts gives what reading it in one gives: the
/// state after the second part, and the actions of both parts in order. So
/// the stream may be read in pieces of any size.
pub proof fn lemma_run_in_parts(m: MonitorModel, first: Seq<u8>, second: Seq<u8>)
    ensures
        run(m, first + second) == (
            run(run(m, first).0, second).0,
            run(m, first).1 + run(run(m, first).0, second).1,
        ),
    decreases second.len(),
{
    if second.len() > 0 {
        let shorter = second.drop_last();
        lemma_run_in_parts(m, first, shorter);
        assert((first + second).drop_last() == first + shorter);
    }
}

/// The progress shown is the elapsed time kept, in whole seconds: a byte
/// that reports progress ends a line, marks the run as started, and shows
/// a thousandth of the milliseconds that the state then holds.
pub proof fn lemma_progress_is_elapsed_seconds(m: MonitorModel, byte: u8)
    requires
        step(m, byte).1 is ShowProgress,
    ensures
        byte == LINE_END,
        step(m, byte).0.started,
        step(m, byte).0.line.len() == 0,
        step(m, byte).1 == ActionModel::ShowProgress(step(m, byte).0.elapsed_ms / 1000),
{
}

/// A byte that asks for an answer is a blank, hands over the line that it
/// ends, and reports no progress: but for the line, which is empty
/// afterwards, and the note that the question was answered, the state
/// stays as it was.
pub proof fn lemma_prompt_reports_no_progress(m: MonitorModel, byte: u8)
    requires
        step(m, byte).1 is AskUser,
    ensures
        byte == WORD_END,
        step(m, byte).1 == ActionModel::AskUser(m.line.push(byte)),
        step(m, byte).0 == (MonitorModel {
            line: Seq::empty(),
            prompt_answered: true,
            ..m
        }),
{
}

/// What the byte `byte` makes of `line`, which ends in it.
pub fn classify(line: &[u8], byte: u8) -> (r: LineState)
    ensures
        r == line_state(line@, byte),
{
    if byte == WORD_END {
        let text = decode_latin1(line);
        let prompt = chars_of("Overwrite? [y/N]");
        if includes(text.as_slice(), prompt.as_slice()) {
            return LineState::PromptPending;
        }
    }
    if byte == LINE_END {
        LineState::LineComplete
    } else {
        LineState::Accumulating
    }
}

/// The output time, in microseconds, that a line reports.
pub fn read_progress(line: &[u8]) -> (r: Option<u64>)
    ensures
        match r {
            Some(v) => reported_micros(line@) == Some(v as nat),
            None => reported_micros(line@) is None,
        },
{
    let chars = decode_latin1(line);
    let text = chars.as_slice();
    let key = chars_of("out_time_ms");
    if !includes(text, key.as_slice()) {
        return None;
    }
    let mark = chars_of("=");
    let from: usize = match rfind(text, mark.as_slice()) {
        Some(at) => at + mark.len(),
        None => 0,
    };
    assert(text@.subrange(from as int, text@.len() as int) == after_last(text@, "="@));
    let (a, b) = trim_bounds(text, from, text.len());
    match parse_integer(slice_subrange(text, a, b)) {
        Some(v) => if v >= 0 {
            Some(v as u64)
        } else {
            None
        },
        None => None,
    }
}

/// Whether a line says that the transcoder ends without overwriting.
pub fn read_declined(line: &[u8]) -> (r: bool)
    ensures
        r == says_declined(line@),
{
    let text = decode_latin1(line);
    let message = chars_of("Not overwriting - exiting");
    includes(text.as_slice(), message.as_slice())
}

impl ProgressMonitor {
    /// A monitor for a run of which nothing has been read yet.
    pub fn new() -> (r: ProgressMonitor)
        ensures
            r@ == initial_model(),
    {
        ProgressMonitor {
            buffer: Vec::new(),
            elapsed_ms: 0,
            started: false,
            prompt_answered: false,
            soft_exit: false,
        }
    }

    /// Takes the next byte of the stream and says what to do.
    pub fn feed_byte(&mut self, byte: u8) -> (action: MonitorAction)
        ensures
            (final(self)@, action@) == step(old(self)@, byte),
    {
        self.buffer.push(byte);
        match classify(self.buffer.as_slice(), byte) {
            LineState::Accumulating => MonitorAction::Continue,
            LineState::PromptPending => {
                let mut prompt: Vec<u8> = Vec::new();
                core::mem::swap(&mut self.buffer, &mut prompt);
                self.prompt_answered = true;
                MonitorAction::AskUser(prompt)
            },
            LineState::LineComplete => {
                if read_declined(self.buffer.as_slice()) {
                    self.soft_exit = true;
                }
                let reported = read_progress(self.buffer.as_slice());
                self.buffer.clear();
                match reported {
                    Some(micros) => {
                        self.elapsed_ms = micros / MICROS_PER_MILLI;
                        self.started = true;
                        MonitorAction::ShowProgress(micros / MICROS_PER_PROGRESS_SECOND)
                    },
                    None => MonitorAction::Continue,
                }
            },
        }
    }

    /// Takes a run of bytes and lists, in order, what they ask for.
    pub fn feed(&mut self, bytes: &[u8]) -> (actions: Vec<MonitorAction>)
        ensures
            (final(self)@, action_views(actions@)) == run(old(self)@, bytes@),
    {
        let mut actions: Vec<MonitorAction> = Vec::new();
        let mut i: usize = 0;
        while i < bytes.len()
            invariant
                i <= bytes.len(),
                (self@, action_views(actions@)) == run(old(self)@, bytes@.take(i as int)),
            decreases bytes.len() - i,
        {
            let action = self.feed_byte(bytes[i]);
            proof {
                let next = bytes@.take(i + 1);
                assert(next.drop_last() == bytes@.take(i as int));
            }
            match action {
                MonitorAction::Continue => {},
                other => {
                    actions.push(other);
                },
            }
            i += 1;
        }
        assert(bytes@.take(bytes@.len() as int) == bytes@);
        actions
    }

    /// The whole seconds of output last reported.
    pub fn elapsed_seconds(&self) -> (r: u64)
        ensures
            r == self@.elapsed_ms / 1000,
    {
        self.elapsed_ms / 1000
    }

    /// Whether the progress indicator is to be finished once the stream
    /// has ended: it is where it was ever set.
    pub fn finish_progress(&self) -> (r: bool)
        ensures
            r == self@.started,
    {
        self.started
    }

    /// Judges the run once the transcoder has ended. It is done where the
    /// transcoder succeeded or said that it ends without overwriting; else
    /// it failed, and the error holds the bytes of the line last begun.
    pub fn finish(self, exit_success: bool) -> (r: Result<(), TrimError>)
        ensures
            is_outcome(r, self@, exit_success),
    {
        if exit_success || self.soft_exit {
            Ok(())
        } else {
            Err(TrimError::TranscodeFailed(self.buffer))
        }
    }
}

/// What came of one supervised run.
#[derive(Debug, PartialEq, Eq)]
pub struct TrimReport {
    /// The length of the progress indicator, in seconds.
    pub progress_total: u64,
    /// What the stream asked for, in order.
    pub actions: Vec<MonitorAction>,
    /// Whether the progress indicator was set and is to be finished.
    pub progress_finished: bool,
}

/// Whether `r` is the outcome of the run in which the transcoder wrote
/// `stream` and ended with the given exit status, for an output that is
/// expected to last `expected` microseconds.
pub open spec fn is_trim_outcome(
    r: Result<TrimReport, TrimError>,
    expected: int,
    stream: Seq<u8>,
    exit_success: bool,
) -> bool {
    let (end, actions) = run(initial_model(), stream);
    match r {
        Ok(report) => {
            &&& completed(end, exit_success)
            &&& report.progress_total == rounded_seconds(expected)
            &&& action_views(report.actions@) == actions
            &&& report.progress_finished == end.started
        },
        Err(e) => !completed(end, exit_success) && (e matches TrimError::TranscodeFailed(d) && d@
            == end.line),
    }
}

/// Supervises one run from its record: what the transcoder wrote to its
/// diagnostic stream and how it ended. The progress indicator is as long as
/// the expected output, in whole seconds. The run is done where the
/// transcoder succeeded or said that it ends without overwriting; else it
/// fails with `TranscodeFailed` and the bytes of the line last begun.
pub fn trim_start_end(expected_duration: Seconds, stream: &[u8], exit_success: bool) -> (r: Result<
    TrimReport,
    TrimError,
>)
    ensures
        is_trim_outcome(r, expected_duration@, stream@, exit_success),
{
    let mut monitor = ProgressMonitor::new();
    let actions = monitor.feed(stream);
    let progress_finished: bool = monitor.finish_progress();
    match monitor.finish(exit_success) {
        Ok(_) => Ok(
            TrimReport { progress_total: expected_duration.rounded(), actions, progress_finished },
        ),
        Err(e) => Err(e),
    }
}

} // verus!
