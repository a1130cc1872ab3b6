use video_trim::calc_duration::{calc_duration, calc_duration_args};
use video_trim::error::TrimError;
use video_trim::make_screenshot::make_screenshot;
use video_trim::seconds::Seconds;

#[test]
fn probe_output_is_one_number_and_a_line_end() {
    assert_eq!(calc_duration("10.500000\n", true), Ok(Seconds::from_micros(10_500_000)));
    assert_eq!(calc_duration("3600\n", true), Ok(Seconds::from_micros(3_600_000_000)));
}

#[test]
fn probe_failure_is_an_error() {
    assert_eq!(calc_duration("10.500000\n", false), Err(TrimError::DurationProbeFailed));
    assert_eq!(calc_duration("", false), Err(TrimError::DurationProbeFailed));
}

#[test]
fn probe_output_that_is_no_number_is_an_error() {
    assert_eq!(calc_duration("", true), Err(TrimError::DurationProbeFailed));
    assert_eq!(calc_duration("\n", true), Err(TrimError::DurationProbeFailed));
    assert_eq!(calc_duration("N/A\n", true), Err(TrimError::DurationProbeFailed));
    assert_eq!(calc_duration("10.5\r\n", true), Err(TrimError::DurationProbeFailed));
}

#[test]
fn probe_output_that_is_not_positive_is_an_error() {
    assert_eq!(calc_duration("0.000000\n", true), Err(TrimError::DurationProbeFailed));
    assert_eq!(calc_duration("-4.2\n", true), Err(TrimError::DurationProbeFailed));
}

#[test]
fn the_last_character_is_dropped_whatever_it_is() {
    assert_eq!(calc_duration("12.57", true), Ok(Seconds::from_micros(12_500_000)));
}

#[test]
fn probe_arguments_in_order() {
    assert_eq!(
        calc_duration_args("/some/c.mp4"),
        vec!["-v", "error", "-show_entries", "format=duration", "-of", "csv=p=0", "/some/c.mp4"]
    );
}

#[test]
fn screenshot_arguments_in_order() {
    assert_eq!(
        make_screenshot("/in.mp4", "/in.jpg", "19.32"),
        vec!["-ss", "19.32", "-i", "/in.mp4", "-vframes", "1", "-q:v", "2", "/in.jpg"]
    );
}
