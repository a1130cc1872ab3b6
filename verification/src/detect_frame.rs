//! Finding a cut point in the log of a frame comparison.
//!
//! The transcoder compares every frame of the input with a still picture
//! and logs, for each frame that matches, a line signed by the black-frame
//! detector with the frame's time in a word `t:<seconds>`. Each such time
//! is a candidate. A candidate is accepted where it lies strictly inside
//! the bounds that are set. The first accepted candidate and the latest
//! one accepted after it are kept, and one of the two is the result.

use vstd::prelude::*;
use crate::seconds::{
    decimal_micros,
    decimal_micros_or_zero,
    in_parsed_range,
    integer_value,
    micros_view,
    parse_decimal_or_zero,
    parse_integer,
    Seconds,
};
use crate::text::{
    after_last,
    chars_of,
    contains,
    count_leading_spaces,
    count_word,
    includes,
    lemma_word_len_bound,
    matches_at,
    push_text,
    rfind,
    space,
    starts_with,
    trim_start,
    views,
    word_len,
    words,
};
use vstd::slice::slice_subrange;

verus! {

/// Which of the accepted candidates is the result.
#[derive(Clone, Copy, Debug, PartialEq, Eq, Structural)]
pub enum Selection {
    /// The first accepted candidate.
    First,
    /// The latest candidate accepted after the first.
    Last,
}

/// The bounds that a candidate must lie inside, and which one to return.
#[derive(Clone, Copy, Debug, PartialEq, Eq, Structural)]
pub struct FrameWindowFilter {
    /// Where set, a candidate must be later than this.
    pub greater_than: Option<Seconds>,
    /// Where set, a candidate must be earlier than this.
    pub lower_than: Option<Seconds>,
    /// Which accepted candidate is the result.
    pub selection: Selection,
}

/// The candidates kept so far.
#[derive(Clone, Copy, Debug, PartialEq, Eq, Structural)]
pub struct FrameDetector {
    /// The bounds and the selection.
    pub filter: FrameWindowFilter,
    /// The first accepted candidate.
    pub first: Option<Seconds>,
    /// The latest candidate accepted after the first.
    pub last: Option<Seconds>,
}

/// What a line of the log is.
#[derive(Clone, Copy, Debug, PartialEq, Eq, Structural)]
pub enum LineKind {
    /// A line of the black-frame detector.
    Blackframe,
    /// A progress line, with the number of the frame reached.
    Progress(u32),
    /// Anything else.
    Other,
}

/// How grave the transcoder holds a message of its log to be.
#[derive(Clone, Copy, Debug, PartialEq, Eq, Structural)]
pub enum LogLevel {
    /// Information on what the transcoder does.
    Info,
    /// Something that may be wrong.
    Warning,
    /// Something that is wrong.
    Error,
    /// Something that ends the run.
    Fatal,
    /// A message without a level that is known.
    Unknown,
}

/// What to do about a message of the log.
#[derive(Clone, Copy, Debug, PartialEq, Eq, Structural)]
pub enum LogAction {
    /// Nothing.
    Nothing,
    /// Report the message as an error.
    ReportError,
    /// Report that this frame has been reached.
    ReportProgress(u32),
}

/// A filter's bounds as mathematical values, in microseconds.
pub struct BoundsModel {
    pub greater_than: Option<int>,
    pub lower_than: Option<int>,
}

/// The candidates kept, in microseconds.
pub struct KeptModel {
    pub first: Option<int>,
    pub last: Option<int>,
}

impl FrameWindowFilter {
    /// The bounds of the filter.
    pub open spec fn bounds(&self) -> BoundsModel {
        BoundsModel {
            greater_than: micros_view(self.greater_than),
            lower_than: micros_view(self.lower_than),
        }
    }
}

impl View for FrameDetector {
    type V = KeptModel;

    open spec fn view(&self) -> KeptModel {
        KeptModel { first: micros_view(self.first), last: micros_view(self.last) }
    }
}

/// Whether what is kept is within what a decimal text can name.
pub open spec fn kept_in_range(kept: KeptModel) -> bool {
    &&& kept.first matches Some(t) ==> in_parsed_range(t)
    &&& kept.last matches Some(t) ==> in_parsed_range(t)
}

/// The text that signs a line of the black-frame detector.
pub open spec fn blackframe_signature() -> Seq<char> {
    "Parsed_blackframe_1"@
}

/// The bound that a text sets: the decimal number in it; none where the
/// text is no decimal text or the number is minus one.
pub open spec fn bound_of(text: Seq<char>) -> Option<int> {
    match decimal_micros(text) {
        Some(m) => if m == -1_000_000 {
            None
        } else {
            Some(m)
        },
        None => None,
    }
}

/// Whether the candidate `t` lies strictly inside the bounds that are set.
pub open spec fn accepts(bounds: BoundsModel, t: int) -> bool {
    &&& bounds.greater_than matches Some(low) ==> low < t
    &&& bounds.lower_than matches Some(high) ==> t < high
}

/// What is kept after the candidate `t`: where it is accepted, it is the
/// first if there was none, and else the latest.
pub open spec fn observe(kept: KeptModel, bounds: BoundsModel, t: int) -> KeptModel {
    if !accepts(bounds, t) {
        kept
    } else if kept.first is None {
        KeptModel { first: Some(t), last: kept.last }
    } else {
        KeptModel { first: kept.first, last: Some(t) }
    }
}

/// The candidate in a word: for a word that begins with `t:`, the decimal
/// number behind its last `:`, taken for zero where it is no decimal text.
pub open spec fn timestamp_of(word: Seq<char>) -> Option<int> {
    if starts_with(word, "t:"@) {
        Some(decimal_micros_or_zero(after_last(word, ":"@)))
    } else {
        None
    }
}

/// What is kept after a word.
pub open spec fn observe_word(kept: KeptModel, bounds: BoundsModel, word: Seq<char>) -> KeptModel {
    match timestamp_of(word) {
        Some(t) => observe(kept, bounds, t),
        None => kept,
    }
}

/// What is kept after a run of words, taken in order.
pub open spec fn observe_words(kept: KeptModel, bounds: BoundsModel, ws: Seq<Seq<char>>) -> KeptModel
    decreases ws.len(),
{
    if ws.len() == 0 {
        kept
    } else {
        observe_words(observe_word(kept, bounds, ws[0]), bounds, ws.drop_first())
    }
}

/// What is kept after a line: a line of the black-frame detector is read
/// word by word, any other line changes nothing.
pub open spec fn scan_line(kept: KeptModel, bounds: BoundsModel, line: Seq<char>) -> KeptModel {
    if contains(line, blackframe_signature()) {
        observe_words(kept, bounds, words(line))
    } else {
        kept
    }
}

/// What is kept after a run of lines, taken in order.
pub open spec fn scan_lines(kept: KeptModel, bounds: BoundsModel, lines: Seq<Seq<char>>) -> KeptModel
    decreases lines.len(),
{
    if lines.len() == 0 {
        kept
    } else {
        scan_line(scan_lines(kept, bounds, lines.drop_last()), bounds, lines.last())
    }
}

/// The result for what is kept.
pub open spec fn selected(kept: KeptModel, selection: Selection) -> Option<int> {
    match selection {
        Selection::First => kept.first,
        Selection::Last => kept.last,
    }
}

/// The first word of a text.
pub open spec fn first_word(s: Seq<char>) -> Seq<char> {
    let rest = trim_start(s);
    rest.take(word_len(rest) as int)
}

/// The frame number that a progress line reports: the whole number that is
/// the first word behind the last `frame=`, where it fits 32 bits.
pub open spec fn progress_frame(line: Seq<char>) -> Option<int> {
    match integer_value(first_word(after_last(line, "frame="@))) {
        Some(n) => if 0 <= n <= u32::MAX {
            Some(n)
        } else {
            None
        },
        None => None,
    }
}

/// What a line of the log is.
pub open spec fn line_kind(line: Seq<char>) -> LineKind {
    if contains(line, blackframe_signature()) {
        LineKind::Blackframe
    } else if starts_with(line, "[info]"@) {
        match progress_frame(line) {
            Some(n) => LineKind::Progress(n as u32),
            None => LineKind::Other,
        }
    } else {
        LineKind::Other
    }
}

/// What is kept after a message of the log: only an informational message
/// is read.
pub open spec fn scan_message(
    kept: KeptModel,
    bounds: BoundsModel,
    level: LogLevel,
    message: Seq<char>,
) -> KeptModel {
    if level is Info {
        scan_line(kept, bounds, message)
    } else {
        kept
    }
}

/// What to do about a message of the log: an error is reported, and so is
/// the frame that an informational progress line names.
pub open spec fn message_action(level: LogLevel, message: Seq<char>) -> LogAction {
    match level {
        LogLevel::Error => LogAction::ReportError,
        LogLevel::Info => match line_kind(message) {
            LineKind::Progress(n) => LogAction::ReportProgress(n),
            _ => LogAction::Nothing,
        },
        _ => LogAction::Nothing,
    }
}

/// Only accepted candidates are ever kept, and a line that the black-frame
/// detector did not write changes nothing.
pub proof fn lemma_kept_are_accepted(kept: KeptModel, bounds: BoundsModel, line: Seq<char>)
    requires
        kept.first matches Some(t) ==> accepts(bounds, t),
        kept.last matches Some(t) ==> accepts(bounds, t),
        kept.last is Some ==> kept.first is Some,
    ensures
        scan_line(kept, bounds, line).first matches Some(t) ==> accepts(bounds, t),
        scan_line(kept, bounds, line).last matches Some(t) ==> accepts(bounds, t),
        scan_line(kept, bounds, line).last is Some ==> scan_line(kept, bounds, line).first is Some,
        kept.first is Some ==> scan_line(kept, bounds, line).first == kept.first,
        !contains(line, blackframe_signature()) ==> scan_line(kept, bounds, line) == kept,
{
    lemma_words_keep_accepted(kept, bounds, words(line));
}

/// Only accepted candidates are kept over a run of words, and the first
/// one, once kept, stays.
pub proof fn lemma_words_keep_accepted(kept: KeptModel, bounds: BoundsModel, ws: Seq<Seq<char>>)
    requires
        kept.first matches Some(t) ==> accepts(bounds, t),
        kept.last matches Some(t) ==> accepts(bounds, t),
        kept.last is Some ==> kept.first is Some,
    ensures
        observe_words(kept, bounds, ws).first matches Some(t) ==> accepts(bounds, t),
        observe_words(kept, bounds, ws).last matches Some(t) ==> accepts(bounds, t),
        observe_words(kept, bounds, ws).last is Some ==> observe_words(kept, bounds, ws).first
            is Some,
        kept.first is Some ==> observe_words(kept, bounds, ws).first == kept.first,
    decreases ws.len(),
{
    if ws.len() > 0 {
        lemma_words_keep_accepted(observe_word(kept, bounds, ws[0]), bounds, ws.drop_first());
    }
}

/// Reads the candidate in a word.
pub fn word_timestamp(word: &[char]) -> (r: Option<Seconds>)
    ensures
        micros_view(r) == timestamp_of(word@),
        r matches Some(t) ==> in_parsed_range(t@),
{
    let tag = chars_of("t:");
    if !matches_at(word, tag.as_slice(), 0) {
        return None;
    }
    let mark = chars_of(":");
    let from: usize = match rfind(word, mark.as_slice()) {
        Some(at) => at + mark.len(),
        None => 0,
    };
    assert(word@.subrange(from as int, word@.len() as int) == after_last(word@, ":"@));
    Some(parse_decimal_or_zero(slice_subrange(word, from, word.len())))
}

/// Reads the frame number that a progress line reports.
pub fn read_progress_frame(line: &[char]) -> (r: Option<u32>)
    ensures
        match r {
            Some(n) => progress_frame(line@) == Some(n as int),
            None => progress_frame(line@) is None,
        },
{
    let key = chars_of("frame=");
    let from: usize = match rfind(line, key.as_slice()) {
        Some(at) => at + key.len(),
        None => 0,
    };
    let tail = slice_subrange(line, from, line.len());
    assert(tail@ == after_last(line@, "frame="@));
    let lead: usize = count_leading_spaces(tail);
    let rest = slice_subrange(tail, lead, tail.len());
    let n: usize = count_word(rest);
    let word = slice_subrange(rest, 0, n);
    match parse_integer(word) {
        Some(v) => if 0 <= v && v <= 0xffff_ffff {
            Some(v as u32)
        } else {
            None
        },
        None => None,
    }
}

impl FrameWindowFilter {
    /// A filter from its bounds as texts. A text that is no decimal text, or
    /// is minus one, leaves its bound unset. `first_or_last` asks for the
    /// first accepted candidate where it is true.
    pub fn from_text(greater_than: &str, lower_than: &str, first_or_last: bool) -> (r:
        FrameWindowFilter)
        ensures
            r.bounds().greater_than == bound_of(greater_than@),
            r.bounds().lower_than == bound_of(lower_than@),
            r.selection == (if first_or_last {
                Selection::First
            } else {
                Selection::Last
            }),
    {
        FrameWindowFilter {
            greater_than: read_bound(greater_than),
            lower_than: read_bound(lower_than),
            selection: if first_or_last {
                Selection::First
            } else {
                Selection::Last
            },
        }
    }

    /// Whether the candidate `t` lies strictly inside the bounds that are
    /// set.
    pub fn accepts(&self, t: Seconds) -> (r: bool)
        ensures
            r == accepts(self.bounds(), t@),
    {
        let above: bool = match self.greater_than {
            Some(low) => low.micros < t.micros,
            None => true,
        };
        let below: bool = match self.lower_than {
            Some(high) => t.micros < high.micros,
            None => true,
        };
        above && below
    }
}

/// Reads a bound.
fn read_bound(text: &str) -> (r: Option<Seconds>)
    ensures
        micros_view(r) == bound_of(text@),
{
    match Seconds::parse(text) {
        Some(v) => if v.micros == -1_000_000 {
            None
        } else {
            Some(v)
        },
        None => None,
    }
}

impl FrameDetector {
    /// A detector that has kept nothing yet.
    pub fn new(filter: FrameWindowFilter) -> (r: FrameDetector)
        ensures
            r.filter == filter,
            r@ == (KeptModel { first: None, last: None }),
    {
        FrameDetector { filter, first: None, last: None }
    }

    /// Takes one candidate.
    pub fn observe(&mut self, t: Seconds)
        ensures
            final(self).filter == old(self).filter,
            final(self)@ == observe(old(self)@, old(self).filter.bounds(), t@),
    {
        if self.filter.accepts(t) {
            if self.first.is_none() {
                self.first = Some(t);
            } else {
                self.last = Some(t);
            }
        }
    }

    /// Takes the words of a line of the black-frame detector.
    fn observe_line(&mut self, line: &[char])
        ensures
            final(self).filter == old(self).filter,
            final(self)@ == observe_words(old(self)@, old(self).filter.bounds(), words(line@)),
            kept_in_range(old(self)@) ==> kept_in_range(final(self)@),
    {
        let mut i: usize = 0;
        assert(line@.skip(0) == line@);
        while i < line.len()
            invariant
                i <= line.len(),
                self.filter == old(self).filter,
                kept_in_range(old(self)@) ==> kept_in_range(self@),
                observe_words(old(self)@, old(self).filter.bounds(), words(line@))
                    == observe_words(self@, self.filter.bounds(), words(line@.skip(i as int))),
            decreases line.len() - i,
        {
            let ghost rest = line@.skip(i as int);
            if space(line[i]) {
                assert(rest.drop_first() == line@.skip(i + 1));
                i += 1;
            } else {
                let tail = slice_subrange(line, i, line.len());
                let n: usize = count_word(tail);
                proof {
                    lemma_word_len_bound(rest);
                    let ws = words(rest);
                    assert(ws.drop_first() == words(rest.skip(n as int)));
                    assert(rest.skip(n as int) == line@.skip(i + n));
                }
                let word = slice_subrange(tail, 0, n);
                match word_timestamp(word) {
                    Some(t) => {
                        self.observe(t);
                    },
                    None => {},
                }
                i += n;
            }
        }
    }

    /// Takes one line of the log and says what it was. A line of the
    /// black-frame detector may change what is kept; no other line does.
    pub fn feed_line(&mut self, line: &str) -> (kind: LineKind)
        ensures
            final(self).filter == old(self).filter,
            final(self)@ == scan_line(old(self)@, old(self).filter.bounds(), line@),
            kind == line_kind(line@),
            kept_in_range(old(self)@) ==> kept_in_range(final(self)@),
    {
        let chars = chars_of(line);
        let text = chars.as_slice();
        let signature = chars_of("Parsed_blackframe_1");
        if includes(text, signature.as_slice()) {
            self.observe_line(text);
            return LineKind::Blackframe;
        }
        let info = chars_of("[info]");
        if matches_at(text, info.as_slice(), 0) {
            match read_progress_frame(text) {
                Some(n) => LineKind::Progress(n),
                None => LineKind::Other,
            }
        } else {
            LineKind::Other
        }
    }

    /// Takes one message of the log with its level and says what to do
    /// about it. Only an informational message may change what is kept.
    pub fn feed_message(&mut self, level: LogLevel, message: &str) -> (action: LogAction)
        ensures
            final(self).filter == old(self).filter,
            final(self)@ == scan_message(old(self)@, old(self).filter.bounds(), level, message@),
            action == message_action(level, message@),
            kept_in_range(old(self)@) ==> kept_in_range(final(self)@),
    {
        match level {
            LogLevel::Error => LogAction::ReportError,
            LogLevel::Info => match self.feed_line(message) {
                LineKind::Progress(n) => LogAction::ReportProgress(n),
                _ => LogAction::Nothing,
            },
            _ => LogAction::Nothing,
        }
    }

    /// The result: the first accepted candidate or the latest one accepted
    /// after it, as the filter selects; `None` where there is none.
    pub fn result(&self) -> (r: Option<Seconds>)
        ensures
            micros_view(r) == selected(self@, self.filter.selection),
    {
        match self.filter.selection {
            Selection::First => self.first,
            Selection::Last => self.last,
        }
    }
}

/// Finds the cut point in the informational lines of a frame comparison's
/// log. The bounds are given as texts; a text that is no decimal text, or
/// is minus one, leaves its bound unset. `first_or_last` asks for the first
/// accepted candidate where it is true, and else for the latest one
/// accepted after the first. `None` where no such candidate was logged.
pub fn detect_frame(
    lines: &Vec<String>,
    greater_than_duration: &str,
    lower_than_duration: &str,
    first_or_last: bool,
) -> (r: Option<Seconds>)
    ensures
        micros_view(r) == selected(
            scan_lines(
                KeptModel { first: None, last: None },
                BoundsModel {
                    greater_than: bound_of(greater_than_duration@),
                    lower_than: bound_of(lower_than_duration@),
                },
                views(lines@),
            ),
            if first_or_last {
                Selection::First
            } else {
                Selection::Last
            },
        ),
        r matches Some(t) ==> in_parsed_range(t@),
{
    let filter = FrameWindowFilter::from_text(
        greater_than_duration,
        lower_than_duration,
        first_or_last,
    );
    let mut detector = FrameDetector::new(filter);
    let ghost start = detector@;
    let mut i: usize = 0;
    while i < lines.len()
        invariant
            i <= lines.len(),
            detector.filter == filter,
            kept_in_range(detector@),
            detector@ == scan_lines(start, filter.bounds(), views(lines@).take(i as int)),
        decreases lines.len() - i,
    {
        detector.feed_line(lines[i].as_str());
        proof {
            let next = views(lines@).take(i + 1);
            assert(next.drop_last() == views(lines@).take(i as int));
        }
        i += 1;
    }
    assert(views(lines@).take(lines@.len() as int) == views(lines@));
    detector.result()
}

/// The transcoder's arguments for comparing every frame of `input_filepath`
/// with the still picture `frame_filepath`, one frame a second, and logging
/// the frames of which at least `blackframe_amount` percent of the pixels
/// differ by less than `blackframe_threshold`.
pub fn detect_frame_args(
    input_filepath: &str,
    frame_filepath: &str,
    blackframe_amount: &str,
    blackframe_threshold: &str,
) -> (args: Vec<String>)
    ensures
        views(args@) == seq![
            "-i"@,
            input_filepath@,
            "-r"@,
            "1"@,
            "-loop"@,
            "1"@,
            "-i"@,
            frame_filepath@,
            "-an"@,
            "-filter_complex"@,
            "blend=difference:shortest=1,blackframe="@ + blackframe_amount@ + ":"@
                + blackframe_threshold@,
            "-f"@,
            "null"@,
            "-"@,
        ],
{
    let mut filter = "blend=difference:shortest=1,blackframe=".to_owned();
    filter.append(blackframe_amount);
    filter.append(":");
    filter.append(blackframe_threshold);
    let mut args: Vec<String> = Vec::new();
    push_text(&mut args, "-i");
    push_text(&mut args, input_filepath);
    push_text(&mut args, "-r");
    push_text(&mut args, "1");
    push_text(&mut args, "-loop");
    push_text(&mut args, "1");
    push_text(&mut args, "-i");
    push_text(&mut args, frame_filepath);
    push_text(&mut args, "-an");
    push_text(&mut args, "-filter_complex");
    push_text(&mut args, filter.as_str());
    push_text(&mut args, "-f");
    push_text(&mut args, "null");
    push_text(&mut args, "-");
    args
}

} // verus!
