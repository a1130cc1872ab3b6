use video_trim::error::TrimError;
use video_trim::monitor::{classify, read_declined, read_progress, trim_start_end, LineState, MonitorAction, ProgressMonitor};
use video_trim::seconds::Seconds;

const PROMPT: &[u8] = b"File '/a_tr.mp4' already exists. Overwrite? [y/N] ";

#[test]
fn one_progress_line_sets_the_elapsed_seconds() {
    let mut monitor = ProgressMonitor::new();
    let actions = monitor.feed(b"frame=48\nout_time_ms=2000000\n");
    assert_eq!(actions, vec![MonitorAction::ShowProgress(2)]);
    assert_eq!(monitor.elapsed_seconds(), 2);
    assert_eq!(monitor.elapsed_ms, 2000);
    assert!(monitor.started);
    assert!(!monitor.prompt_answered);
    assert!(!monitor.soft_exit);
    assert!(monitor.buffer.is_empty());
}

#[test]
fn the_prompt_asks_once_and_reports_no_progress() {
    let mut monitor = ProgressMonitor::new();
    let actions = monitor.feed(PROMPT);
    assert_eq!(actions, vec![MonitorAction::AskUser(PROMPT.to_vec())]);
    assert!(monitor.prompt_answered);
    assert!(!monitor.started);
    assert_eq!(monitor.elapsed_seconds(), 0);
    assert!(monitor.buffer.is_empty());
}

#[test]
fn the_prompt_is_seen_before_any_newline() {
    let mut monitor = ProgressMonitor::new();
    let (last, before) = PROMPT.split_last().unwrap();
    for byte in before {
        assert_eq!(monitor.feed_byte(*byte), MonitorAction::Continue);
    }
    assert!(!monitor.prompt_answered);
    assert_eq!(monitor.feed_byte(*last), MonitorAction::AskUser(PROMPT.to_vec()));
    assert!(monitor.prompt_answered);
}

#[test]
fn the_divisor_is_a_million() {
    let mut monitor = ProgressMonitor::new();
    assert_eq!(monitor.feed(b"out_time_ms=999999\n"), vec![MonitorAction::ShowProgress(0)]);
    assert_eq!(monitor.elapsed_ms, 999);
    assert_eq!(monitor.feed(b"out_time_ms=1000000\n"), vec![MonitorAction::ShowProgress(1)]);
    assert_eq!(monitor.elapsed_ms, 1000);
    assert_eq!(
        monitor.feed(b"out_time_ms=3600000000\n"),
        vec![MonitorAction::ShowProgress(3600)]
    );
    assert_eq!(monitor.elapsed_seconds(), 3600);
}

#[test]
fn read_progress_takes_what_follows_the_last_equals_sign() {
    assert_eq!(read_progress(b"out_time_ms=2000000\n"), Some(2_000_000));
    assert_eq!(read_progress(b"out_time_ms= 15 \r\n"), Some(15));
    assert_eq!(read_progress(b"x=1 out_time_ms=7=8\n"), Some(8));
    assert_eq!(read_progress(b"out_time_ms=+5\n"), Some(5));
    assert_eq!(read_progress(b"out_time_ms=0\n"), Some(0));
}

#[test]
fn read_progress_drops_what_is_no_progress() {
    assert_eq!(read_progress(b"out_time_ms=-5\n"), None);
    assert_eq!(read_progress(b"out_time_ms=N/A\n"), None);
    assert_eq!(read_progress(b"out_time_ms=\n"), None);
    assert_eq!(read_progress(b"out_time_ms\n"), None);
    assert_eq!(read_progress(b"out_time=00:00:02.000000\n"), None);
    assert_eq!(read_progress(b"out_time_us=2000000\n"), None);
    assert_eq!(read_progress(b"out_time_ms=1000000000000000000\n"), None);
    assert_eq!(read_progress(b"out_time_ms=999999999999999999\n"), Some(999_999_999_999_999_999));
}

#[test]
fn other_lines_are_dropped() {
    let mut monitor = ProgressMonitor::new();
    let actions = monitor.feed(b"bitrate= 512.0kbits/s\nspeed=9.25x\nprogress=continue\n");
    assert!(actions.is_empty());
    assert!(!monitor.started);
    assert!(monitor.buffer.is_empty());
}

#[test]
fn a_line_that_goes_on_is_kept() {
    let mut monitor = ProgressMonitor::new();
    let actions = monitor.feed(b"first\nConversion failed");
    assert!(actions.is_empty());
    assert_eq!(monitor.buffer, b"Conversion failed".to_vec());
}

#[test]
fn declined_overwrite_is_a_soft_exit() {
    // The wording is that of the transcoder in use; another wording is a failure.
    let mut monitor = ProgressMonitor::new();
    let mut stream = PROMPT.to_vec();
    stream.extend_from_slice(b"Not overwriting - exiting\n");
    let actions = monitor.feed(&stream);
    assert_eq!(actions, vec![MonitorAction::AskUser(PROMPT.to_vec())]);
    assert!(monitor.soft_exit);
    assert!(monitor.buffer.is_empty());
    assert_eq!(monitor.finish(false), Ok(()));

    assert!(read_declined(b"Not overwriting - exiting\n"));
    assert!(!read_declined(b"Not overwriting, exiting\n"));
}

#[test]
fn classify_tells_the_three_states() {
    assert_eq!(classify(b"Overwrite? [y/N] ", b' '), LineState::PromptPending);
    assert_eq!(classify(b"Overwrite? ", b' '), LineState::Accumulating);
    assert_eq!(classify(b"Overwrite? [y/N]\n", b'\n'), LineState::LineComplete);
    assert_eq!(classify(b"abc", b'c'), LineState::Accumulating);
    assert_eq!(classify(b"\n", b'\n'), LineState::LineComplete);
}

#[test]
fn finish_succeeds_on_success_or_soft_exit() {
    let monitor = ProgressMonitor::new();
    assert_eq!(monitor.finish(true), Ok(()));

    let mut monitor = ProgressMonitor::new();
    monitor.feed(b"Not overwriting - exiting\n");
    assert_eq!(monitor.finish(true), Ok(()));
}

#[test]
fn finish_fails_with_the_line_last_begun() {
    let mut monitor = ProgressMonitor::new();
    monitor.feed(b"out_time_ms=1000000\nConversion failed!");
    assert!(monitor.finish_progress());
    assert_eq!(
        monitor.finish(false),
        Err(TrimError::TranscodeFailed(b"Conversion failed!".to_vec()))
    );
}

#[test]
fn trim_start_end_reports_a_whole_run() {
    let mut stream = Vec::new();
    stream.extend_from_slice(b"out_time_ms=1500000\nprogress=continue\n");
    stream.extend_from_slice(b"out_time_ms=4400000\nprogress=end\n");
    let report = trim_start_end(Seconds::from_micros(4_500_000), &stream, true).unwrap();
    assert_eq!(report.progress_total, 5);
    assert_eq!(
        report.actions,
        vec![MonitorAction::ShowProgress(1), MonitorAction::ShowProgress(4)]
    );
    assert!(report.progress_finished);
}

#[test]
fn trim_start_end_fails_without_success_or_soft_exit() {
    let outcome = trim_start_end(Seconds::from_micros(10_000_000), b"bad input\nno", false);
    assert_eq!(outcome, Err(TrimError::TranscodeFailed(b"no".to_vec())));

    let mut stream = PROMPT.to_vec();
    stream.extend_from_slice(b"Not overwriting - exiting\n");
    let report = trim_start_end(Seconds::from_micros(10_000_000), &stream, false).unwrap();
    assert_eq!(report.progress_total, 10);
    assert_eq!(report.actions, vec![MonitorAction::AskUser(PROMPT.to_vec())]);
    assert!(!report.progress_finished);
}

#[test]
fn rounded_counts_a_half_up() {
    assert_eq!(Seconds::from_micros(0).rounded(), 0);
    assert_eq!(Seconds::from_micros(-7_000_000).rounded(), 0);
    assert_eq!(Seconds::from_micros(499_999).rounded(), 0);
    assert_eq!(Seconds::from_micros(500_000).rounded(), 1);
    assert_eq!(Seconds::from_micros(5_150_000).rounded(), 5);
    assert_eq!(Seconds::from_micros(5_500_000).rounded(), 6);
    assert_eq!(Seconds::from_micros(i64::MAX).rounded(), 9_223_372_036_855);
}

#[test]
fn feeding_in_parts_gives_what_feeding_at_once_gives() {
    let mut stream = Vec::new();
    stream.extend_from_slice(b"out_time_ms=1500000\nspeed=1x\n");
    stream.extend_from_slice(PROMPT);
    stream.extend_from_slice(b"out_time_ms=2500000\nNot overwriting - exiting\ntail");

    let mut whole = ProgressMonitor::new();
    let all = whole.feed(&stream);
    assert_eq!(
        all,
        vec![
            MonitorAction::ShowProgress(1),
            MonitorAction::AskUser(PROMPT.to_vec()),
            MonitorAction::ShowProgress(2),
        ]
    );

    for size in [1usize, 2, 3, 7, 50, 1000] {
        let mut pieces = ProgressMonitor::new();
        let mut actions = Vec::new();
        for chunk in stream.chunks(size) {
            actions.extend(pieces.feed(chunk));
        }
        assert_eq!(actions, all);
        assert_eq!(pieces, whole);
    }
}

#[test]
fn a_line_may_report_progress_and_the_soft_exit() {
    let mut monitor = ProgressMonitor::new();
    let actions = monitor.feed(b"Not overwriting - exiting out_time_ms=3000000\n");
    assert_eq!(actions, vec![MonitorAction::ShowProgress(3)]);
    assert!(monitor.soft_exit);
    assert!(monitor.started);
}
