use video_trim::seconds::{parse_decimal, Seconds};

fn micros(s: &str) -> Option<i64> {
    Seconds::parse(s).map(|v| v.micros)
}

#[test]
fn parse_reads_whole_and_fraction() {
    assert_eq!(micros("0"), Some(0));
    assert_eq!(micros("10"), Some(10_000_000));
    assert_eq!(micros("4.5"), Some(4_500_000));
    assert_eq!(micros("5.46"), Some(5_460_000));
    assert_eq!(micros("308.440000"), Some(308_440_000));
    assert_eq!(micros("0.000001"), Some(1));
}

#[test]
fn parse_takes_a_sign() {
    assert_eq!(micros("-1"), Some(-1_000_000));
    assert_eq!(micros("+2.5"), Some(2_500_000));
    assert_eq!(micros("-0.25"), Some(-250_000));
}

#[test]
fn parse_takes_a_bare_point_on_one_side() {
    assert_eq!(micros(".5"), Some(500_000));
    assert_eq!(micros("5."), Some(5_000_000));
    assert_eq!(micros("."), None);
    assert_eq!(micros("-"), None);
    assert_eq!(micros("-."), None);
}

#[test]
fn parse_drops_digits_past_the_sixth() {
    assert_eq!(micros("1.2345678"), Some(1_234_567));
    assert_eq!(micros("0.0000009"), Some(0));
    assert_eq!(micros("1.234567x"), None);
}

#[test]
fn parse_refuses_what_is_no_decimal_text() {
    assert_eq!(micros(""), None);
    assert_eq!(micros("abc"), None);
    assert_eq!(micros("1e3"), None);
    assert_eq!(micros(" 1"), None);
    assert_eq!(micros("1 "), None);
    assert_eq!(micros("1.2.3"), None);
    assert_eq!(micros("--1"), None);
    assert_eq!(micros("inf"), None);
}

#[test]
fn parse_is_bounded() {
    assert_eq!(micros("999999999999"), Some(999_999_999_999_000_000));
    assert_eq!(micros("999999999999.999999"), Some(999_999_999_999_999_999));
    assert_eq!(micros("-999999999999.999999"), Some(-999_999_999_999_999_999));
    assert_eq!(micros("1000000000000"), None);
    assert_eq!(micros("99999999999999999999999999999999999999"), None);
    assert_eq!(micros("000000000000000000000000000001"), Some(1_000_000));
}

#[test]
fn parse_or_zero_defaults_to_zero() {
    assert_eq!(Seconds::parse_or_zero("nonsense").micros, 0);
    assert_eq!(Seconds::parse_or_zero("").micros, 0);
    assert_eq!(Seconds::parse_or_zero("3.5").micros, 3_500_000);
}

#[test]
fn parse_decimal_reads_characters() {
    let chars: Vec<char> = "12.5".chars().collect();
    assert_eq!(parse_decimal(&chars), Some(Seconds::from_micros(12_500_000)));
}

#[test]
fn to_text_writes_the_shortest_decimal() {
    assert_eq!(Seconds::from_micros(0).to_text(), "0");
    assert_eq!(Seconds::from_micros(10_000_000).to_text(), "10");
    assert_eq!(Seconds::from_micros(4_500_000).to_text(), "4.5");
    assert_eq!(Seconds::from_micros(4_540_000).to_text(), "4.54");
    assert_eq!(Seconds::from_micros(6_020_000).to_text(), "6.02");
    assert_eq!(Seconds::from_micros(1).to_text(), "0.000001");
    assert_eq!(Seconds::from_micros(123_456_789).to_text(), "123.456789");
    assert_eq!(Seconds::from_micros(-250_000).to_text(), "-0.25");
    assert_eq!(Seconds::from_micros(-3_000_000).to_text(), "-3");
}

#[test]
fn to_text_covers_the_whole_range() {
    assert_eq!(Seconds::from_micros(i64::MAX).to_text(), "9223372036854.775807");
    assert_eq!(Seconds::from_micros(i64::MIN).to_text(), "-9223372036854.775808");
}

#[test]
fn text_of_a_value_reads_back_as_the_value() {
    for m in [0i64, 1, -1, 999_999, 1_000_000, 4_540_000, -6_020_000, 999_999_999_999_999_999] {
        assert_eq!(micros(&Seconds::from_micros(m).to_text()), Some(m));
    }
}
