use video_trim::helpers::parse_float;
use video_trim::seconds::Seconds;

fn seconds(value: f64) -> Seconds {
    Seconds::from_micros((value * 1_000_000.0).round() as i64)
}

#[test]
fn parse_float_for_nothing() {
    let parsed = parse_float("", "");
    assert_eq!(parsed.before_str, "");
    assert_eq!(parsed.after_str, "");
    assert_eq!(parsed.before_float, seconds(0.0));
    assert_eq!(parsed.after_float, seconds(0.0));
}

#[test]
fn parse_float_for_none_digit() {
    let parsed = parse_float("dd=gg", "=");
    assert_eq!(parsed.before_str, "dd");
    assert_eq!(parsed.after_str, "gg");
    assert_eq!(parsed.before_float, seconds(0.0));
    assert_eq!(parsed.after_float, seconds(0.0));
}

#[test]
fn parse_float_for_positive_digit() {
    let parsed = parse_float("45.56dur5.2", "dur");
    assert_eq!(parsed.before_str, "45.56");
    assert_eq!(parsed.after_str, "5.2");
    assert_eq!(parsed.before_float, seconds(45.56));
    assert_eq!(parsed.after_float, seconds(5.2));
}

#[test]
fn parse_float_without_splitter_keeps_all_before() {
    let parsed = parse_float(" 7.25 ", "dur");
    assert_eq!(parsed.before_str, "7.25");
    assert_eq!(parsed.after_str, "");
    assert_eq!(parsed.before_float.micros, 7_250_000);
    assert_eq!(parsed.after_float.micros, 0);
}

#[test]
fn parse_float_stops_at_second_splitter() {
    let parsed = parse_float("1dur 2 dur3", "dur");
    assert_eq!(parsed.before_str, "1");
    assert_eq!(parsed.after_str, "2");
    assert_eq!(parsed.before_float.micros, 1_000_000);
    assert_eq!(parsed.after_float.micros, 2_000_000);
}

#[test]
fn parse_float_empty_splitter_stands_before_every_character() {
    let parsed = parse_float("42", "");
    assert_eq!(parsed.before_str, "");
    assert_eq!(parsed.after_str, "4");
    assert_eq!(parsed.before_float.micros, 0);
    assert_eq!(parsed.after_float.micros, 4_000_000);
}

#[test]
fn parse_float_for_missing_splitter_in_nothing() {
    let parsed = parse_float("", "=");
    assert_eq!(parsed.before_str, "");
    assert_eq!(parsed.after_str, "");
    assert_eq!(parsed.before_float, seconds(0.0));
    assert_eq!(parsed.after_float, seconds(0.0));
}
