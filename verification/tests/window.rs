use video_trim::error::TrimError;
use video_trim::seconds::Seconds;
use video_trim::window::{resolve_expressions, resolve_window, ResolvedWindow, TrimExpression};

fn at(value: f64) -> Seconds {
    Seconds::from_micros((value * 1_000_000.0).round() as i64)
}

fn window(start: f64, end: f64, clip: f64) -> ResolvedWindow {
    ResolvedWindow { start_seconds: at(start), end_seconds: at(end), clip_duration: at(clip) }
}

#[test]
fn expression_without_marker_is_a_plain_offset() {
    let e = TrimExpression::parse("4.5");
    assert_eq!(e, TrimExpression { offset: at(4.5), length: at(0.0), uses_dur: false });
    let e = TrimExpression::parse("");
    assert_eq!(e, TrimExpression { offset: at(0.0), length: at(0.0), uses_dur: false });
    let e = TrimExpression::parse("soon");
    assert_eq!(e, TrimExpression { offset: at(0.0), length: at(0.0), uses_dur: false });
    let e = TrimExpression::parse(" 4.5");
    assert_eq!(e, TrimExpression { offset: at(0.0), length: at(0.0), uses_dur: false });
}

#[test]
fn expression_with_marker_is_offset_and_length() {
    let e = TrimExpression::parse("1.52dur4.5");
    assert_eq!(e, TrimExpression { offset: at(1.52), length: at(4.5), uses_dur: true });
    let e = TrimExpression::parse("dur3");
    assert_eq!(e, TrimExpression { offset: at(0.0), length: at(3.0), uses_dur: true });
    let e = TrimExpression::parse(" 2 dur x");
    assert_eq!(e, TrimExpression { offset: at(2.0), length: at(0.0), uses_dur: true });
    let e = TrimExpression::parse("dur");
    assert_eq!(e, TrimExpression { offset: at(0.0), length: at(0.0), uses_dur: true });
}

#[test]
fn no_expressions_keep_the_whole_source() {
    assert_eq!(resolve_window("", "", at(10.0)), Ok(window(0.0, 0.0, 10.0)));
}

#[test]
fn start_offset_cuts_the_beginning() {
    assert_eq!(resolve_window("4.5", "", at(10.0)), Ok(window(4.5, 0.0, 5.5)));
}

#[test]
fn end_offset_counts_from_the_end() {
    assert_eq!(resolve_window("", "5.46", at(10.0)), Ok(window(0.0, 4.54, 4.54)));
}

#[test]
fn start_with_length_pins_the_end() {
    assert_eq!(resolve_window("1.52dur4.5", "", at(10.0)), Ok(window(1.52, 6.02, 4.5)));
}

#[test]
fn end_with_length_derives_the_start() {
    assert_eq!(resolve_window("", "2dur3", at(10.0)), Ok(window(5.0, 8.0, 3.0)));
    // a length that reaches before the beginning of the source starts at zero
    assert_eq!(resolve_window("", "2dur30", at(10.0)), Ok(window(0.0, 8.0, 8.0)));
    // without an end offset the end stays unset and the start is held at zero
    assert_eq!(resolve_window("", "dur3", at(10.0)), Ok(window(0.0, 0.0, 10.0)));
}

#[test]
fn both_offsets_cut_both_ends() {
    assert_eq!(resolve_window("1.52", "3.33", at(10.0)), Ok(window(1.52, 6.67, 5.15)));
}

#[test]
fn two_markers_conflict() {
    assert_eq!(resolve_window("1dur1", "1dur1", at(10.0)), Err(TrimError::ConflictingTrimSpec));
    assert_eq!(resolve_window("dur", "dur", at(10.0)), Err(TrimError::ConflictingTrimSpec));
    assert_eq!(resolve_window("1dur1", "1dur1", at(0.0)), Err(TrimError::ConflictingTrimSpec));
}

#[test]
fn end_offset_conflicts_with_start_length() {
    assert_eq!(resolve_window("1dur2", "3", at(10.0)), Err(TrimError::ConflictingTrimSpec));
    assert_eq!(resolve_window("dur2", "3", at(10.0)), Err(TrimError::ConflictingTrimSpec));
}

#[test]
fn start_offset_conflicts_with_end_length() {
    assert_eq!(resolve_window("1", "3dur2", at(10.0)), Err(TrimError::ConflictingTrimSpec));
    assert_eq!(resolve_window("1", "dur2", at(10.0)), Err(TrimError::ConflictingTrimSpec));
}

#[test]
fn source_without_length_is_a_probe_failure() {
    assert_eq!(resolve_window("", "", at(0.0)), Err(TrimError::DurationProbeFailed));
    assert_eq!(resolve_window("1", "", at(-3.0)), Err(TrimError::DurationProbeFailed));
}

#[test]
fn end_offset_past_the_source_is_impossible() {
    assert_eq!(resolve_window("", "10", at(10.0)), Err(TrimError::ImpossibleWindow));
    assert_eq!(resolve_window("", "12.5", at(10.0)), Err(TrimError::ImpossibleWindow));
}

#[test]
fn empty_clip_is_impossible() {
    assert_eq!(resolve_window("10", "", at(10.0)), Err(TrimError::ImpossibleWindow));
    assert_eq!(resolve_window("12", "", at(10.0)), Err(TrimError::ImpossibleWindow));
    assert_eq!(resolve_window("6", "5", at(10.0)), Err(TrimError::ImpossibleWindow));
}

#[test]
fn negative_parts_count_as_unset() {
    assert_eq!(resolve_window("-4", "", at(10.0)), Ok(window(0.0, 0.0, 10.0)));
    assert_eq!(resolve_window("", "-4", at(10.0)), Ok(window(0.0, 0.0, 10.0)));
    assert_eq!(resolve_window("-1dur3", "", at(10.0)), Ok(window(0.0, 2.0, 2.0)));
}

#[test]
fn clip_is_source_less_both_cuts() {
    let cases = [
        ("", "", 10.0),
        ("4.5", "", 10.0),
        ("", "5.46", 10.0),
        ("1.52", "3.33", 10.0),
        ("1.52dur4.5", "", 10.0),
        ("", "2dur3", 10.0),
        ("8dur5", "", 10.0),
        ("0.000001", "0.000001", 0.000003),
    ];
    for (start, end, duration) in cases {
        let w = resolve_window(start, end, at(duration)).unwrap();
        let source = at(duration).micros;
        let cut_from_end = if w.end_seconds.micros > 0 { source - w.end_seconds.micros } else { 0 };
        assert_eq!(w.clip_duration.micros, source - w.start_seconds.micros - cut_from_end);
        assert!(w.clip_duration.micros > 0);
        assert!(w.start_seconds.micros >= 0);
    }
}

#[test]
fn resolving_twice_gives_the_same_window() {
    let cases = [("", "", 10.0), ("1.52dur4.5", "", 10.0), ("1dur1", "1dur1", 10.0), ("", "12", 10.0)];
    for (start, end, duration) in cases {
        assert_eq!(
            resolve_window(start, end, at(duration)),
            resolve_window(start, end, at(duration))
        );
    }
}

#[test]
fn resolve_expressions_takes_read_expressions() {
    let start = TrimExpression::parse("1.5");
    let end = TrimExpression::parse("0.5dur2");
    assert_eq!(
        resolve_expressions(start, end, at(10.0)),
        Err(TrimError::ConflictingTrimSpec)
    );
    let start = TrimExpression::parse("");
    assert_eq!(resolve_expressions(start, end, at(10.0)), Ok(window(7.5, 9.5, 2.0)));
}
