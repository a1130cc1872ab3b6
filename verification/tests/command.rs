use video_trim::command::{build_command, calc_command_result, output_names};
use video_trim::error::TrimError;
use video_trim::seconds::Seconds;
use video_trim::window::ResolvedWindow;

fn secs(value: f64) -> Seconds {
    Seconds::from_micros((value * 1_000_000.0).round() as i64)
}

#[test]
fn calc_command_result_basic() {
    let command_result =
        calc_command_result("/f.f", secs(10.0), "", "", false, false, false).unwrap();

    assert_eq!(command_result.input_filename, "f.f");
    assert_eq!(command_result.output_filename, "f_tr.f");
    assert_eq!(command_result.duration, secs(10.0));
    assert_eq!(command_result.seconds_from_start, secs(0.0));
    assert_eq!(
        command_result.command_str,
        "-i /f.f -progress pipe:2 -vf yadif /f_tr.f"
    );
}

#[test]
fn calc_command_result_trim_start() {
    let command_result =
        calc_command_result("/a.mp4", secs(10.0), "4.5", "", true, false, false).unwrap();

    assert_eq!(command_result.input_filename, "a.mp4");
    assert_eq!(command_result.output_filename, "a_tr.mp4");
    assert_eq!(command_result.duration, secs(5.5));
    assert_eq!(command_result.seconds_from_start, secs(4.5));
    assert_eq!(
        command_result.command_str,
        "-ss 4.5 -i /a.mp4 -progress pipe:2 -c copy /a_tr.mp4"
    );
}

#[test]
fn calc_command_result_trim_end() {
    let command_result =
        calc_command_result("/b.mp4", secs(10.0), "", "5.46", false, true, true).unwrap();

    assert_eq!(command_result.input_filename, "b.mp4");
    assert_eq!(command_result.output_filename, "b_tr.mp4");
    assert_eq!(command_result.duration, secs(4.54));
    assert_eq!(command_result.seconds_from_start, secs(0.0));
    assert_eq!(
        command_result.command_str,
        "-to 4.54 -i /b.mp4 -progress pipe:2 -map 0:v:0 -map 0:a:0 -vf yadif /b_tr.mp4"
    );
}

#[test]
fn calc_command_result_trim_both() {
    let command_result =
        calc_command_result("/some/c.mp4", secs(10.0), "1.52", "3.33", true, false, true).unwrap();

    assert_eq!(command_result.input_filename, "c.mp4");
    assert_eq!(command_result.output_filename, "c_tr.mp4");
    assert_eq!(command_result.duration, secs(5.15));
    assert_eq!(command_result.seconds_from_start, secs(1.52));
    assert_eq!(
        command_result.command_str,
        "-ss 1.52 -to 6.67 -i /some/c.mp4 -progress pipe:2 -map 0:a:0 -c copy /some/c_tr.mp4"
    );
}

#[test]
fn calc_command_result_panic_both_dur() {
    let outcome = calc_command_result("/some/c.mp4", secs(0.0), "1dur1", "1dur1", false, false, false);
    assert_eq!(outcome.err(), Some(TrimError::ConflictingTrimSpec));
}

#[test]
fn calc_command_result_trim_start_dur() {
    let command_result =
        calc_command_result("/s/d.mp4", secs(10.0), "1.52dur4.5", "", false, false, true).unwrap();

    assert_eq!(command_result.input_filename, "d.mp4");
    assert_eq!(command_result.output_filename, "d_tr.mp4");
    assert_eq!(command_result.duration, secs(4.5));
    assert_eq!(command_result.seconds_from_start, secs(1.52));
    assert_eq!(
        command_result.command_str,
        "-ss 1.52 -to 6.02 -i /s/d.mp4 -progress pipe:2 -map 0:a:0 -vf yadif /s/d_tr.mp4"
    );
}

#[test]
fn both_dur_conflict_whatever_the_duration() {
    for duration in [-5.0, 0.0, 0.5, 10.0, 86_400.0] {
        let outcome =
            calc_command_result("/some/c.mp4", secs(duration), "1dur1", "1dur1", false, false, false);
        assert_eq!(outcome.err(), Some(TrimError::ConflictingTrimSpec));
    }
}

#[test]
fn arguments_are_listed_one_by_one() {
    let plan = calc_command_result("/s/d.mp4", secs(10.0), "1.52dur4.5", "", true, true, true).unwrap();
    let expected: Vec<String> = [
        "-ss", "1.52", "-to", "6.02", "-i", "/s/d.mp4", "-progress", "pipe:2", "-map", "0:v:0",
        "-map", "0:a:0", "-c", "copy", "/s/d_tr.mp4",
    ]
    .iter()
    .map(|s| s.to_string())
    .collect();
    assert_eq!(plan.args, expected);
    assert_eq!(plan.input_filepath, "/s/d.mp4");
    assert_eq!(plan.output_filepath, "/s/d_tr.mp4");
    assert_eq!(plan.command_str, expected.join(" "));
}

#[test]
fn argument_order_is_the_same_for_every_choice_of_options() {
    let full = [
        "-ss", "-to", "-i", "-progress", "-map:v", "-map:a", "-enc",
    ];
    for bits in 0u32..32 {
        let with_start = bits & 1 != 0;
        let with_end = bits & 2 != 0;
        let take_video = bits & 4 != 0;
        let take_audio = bits & 8 != 0;
        let skip_encoding = bits & 16 != 0;
        let window = ResolvedWindow {
            start_seconds: secs(if with_start { 2.0 } else { 0.0 }),
            end_seconds: secs(if with_end { 8.0 } else { 0.0 }),
            clip_duration: secs(6.0),
        };
        let plan = build_command(window, "in.mkv", skip_encoding, take_video, take_audio).unwrap();
        let mut seen: Vec<&str> = Vec::new();
        let mut i = 0;
        while i + 1 < plan.args.len() {
            let tag = match (plan.args[i].as_str(), plan.args[i + 1].as_str()) {
                ("-ss", _) => "-ss",
                ("-to", _) => "-to",
                ("-i", _) => "-i",
                ("-progress", _) => "-progress",
                ("-map", "0:v:0") => "-map:v",
                ("-map", "0:a:0") => "-map:a",
                ("-c", "copy") | ("-vf", "yadif") => "-enc",
                other => panic!("unexpected pair {:?}", other),
            };
            seen.push(tag);
            i += 2;
        }
        assert_eq!(i + 1, plan.args.len());
        assert_eq!(plan.args[i], "in_tr.mkv");
        let expected: Vec<&str> = full
            .iter()
            .copied()
            .filter(|tag| match *tag {
                "-ss" => with_start,
                "-to" => with_end,
                "-map:v" => take_video,
                "-map:a" => take_audio,
                _ => true,
            })
            .collect();
        assert_eq!(seen, expected);
    }
}

#[test]
fn output_names_put_the_marker_before_the_extension() {
    let names = output_names("/some/dir/clip.final.mp4").unwrap();
    assert_eq!(names.input_filename, "clip.final.mp4");
    assert_eq!(names.output_filename, "clip.final_tr.mp4");
    assert_eq!(names.output_filepath, "/some/dir/clip.final_tr.mp4");

    let names = output_names("plain.mov").unwrap();
    assert_eq!(names.input_filename, "plain.mov");
    assert_eq!(names.output_filename, "plain_tr.mov");
    assert_eq!(names.output_filepath, "plain_tr.mov");

    let names = output_names("dir.d/x.").unwrap();
    assert_eq!(names.output_filename, "x_tr.");
    assert_eq!(names.output_filepath, "dir.d/x_tr.");

    let names = output_names("/видео/серия 1.mp4").unwrap();
    assert_eq!(names.input_filename, "серия 1.mp4");
    assert_eq!(names.output_filepath, "/видео/серия 1_tr.mp4");
}

#[test]
fn output_names_need_a_stem_and_an_extension() {
    assert!(output_names("").is_none());
    assert!(output_names("noextension").is_none());
    assert!(output_names("/dir.with.dots/noextension").is_none());
    assert!(output_names("/dir/").is_none());
    assert!(output_names(".hidden").is_none());
    assert!(output_names("/dir/.hidden").is_none());
    assert!(output_names(".").is_none());
    assert!(output_names("..").is_none());
    assert!(output_names("/a/..").is_none());
}

#[test]
fn a_path_without_extension_is_refused_after_the_window_is_resolved() {
    let outcome = calc_command_result("/dir/noext", secs(10.0), "1", "", false, false, false);
    assert_eq!(outcome.err(), Some(TrimError::InvalidInputPath));
    let outcome = calc_command_result("/dir/noext", secs(10.0), "1dur1", "1dur1", false, false, false);
    assert_eq!(outcome.err(), Some(TrimError::ConflictingTrimSpec));
    let outcome = calc_command_result("/dir/noext", secs(10.0), "11", "", false, false, false);
    assert_eq!(outcome.err(), Some(TrimError::ImpossibleWindow));
}

#[test]
fn no_command_for_an_impossible_window() {
    let empty = ResolvedWindow {
        start_seconds: secs(2.0),
        end_seconds: secs(2.0),
        clip_duration: secs(0.0),
    };
    assert_eq!(
        build_command(empty, "/a.mp4", false, false, false).err(),
        Some(TrimError::ImpossibleWindow)
    );
    let early = ResolvedWindow {
        start_seconds: secs(-1.0),
        end_seconds: secs(0.0),
        clip_duration: secs(5.0),
    };
    assert_eq!(
        build_command(early, "/a.mp4", false, false, false).err(),
        Some(TrimError::ImpossibleWindow)
    );
    assert_eq!(
        build_command(early, "noext", false, false, false).err(),
        Some(TrimError::ImpossibleWindow)
    );
    let fine = ResolvedWindow {
        start_seconds: secs(0.0),
        end_seconds: secs(0.0),
        clip_duration: secs(0.000001),
    };
    assert!(build_command(fine, "/a.mp4", false, false, false).is_ok());
    assert_eq!(
        build_command(fine, "noext", false, false, false).err(),
        Some(TrimError::InvalidInputPath)
    );
}
