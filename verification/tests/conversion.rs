use subconv::convert::conv::{convert, vtt2srt, ConvError, Direction, Patterns};

fn srt(vtt: &str) -> String {
    vtt2srt(vtt).unwrap()
}

#[test]
fn end_to_end_example() {
    let vtt = "WEBVTT\n\n00:00:01.000 --> 00:00:04.000 align:start\n<i>Hello</i> world\n";
    assert_eq!(srt(vtt), "1\n00:00:01,000 --> 00:00:04,000\nHello world");
}

#[test]
fn end_to_end_example_without_final_line_ending() {
    let vtt = "WEBVTT\n\n00:00:01.000 --> 00:00:04.000 align:start\n<i>Hello</i> world";
    assert_eq!(srt(vtt), "1\n00:00:01,000 --> 00:00:04,000\nHello world");
}

#[test]
fn a_document_with_a_header_and_two_cues() {
    let vtt = "WEBVTT\nKind: captions\nLanguage: en\n\n\
               00:00:00.060 --> 00:00:04.490 align:start position:0%\n\
               <c.colorE5E5E5>welcome to the</c> <b>show</b>\n\
               \n\
               00:04.490 --> 00:09.120 align:start position:0%\n\
               we will talk about <i>subtitles</i>\n\
               and how they are written\n";
    let expected = "1\n\
                    00:00:00,060 --> 00:00:04,490\n\
                    welcome to the show\n\
                    \n\
                    \n\
                    2\n\
                    00:00:04,490 --> 00:00:09,120\n\
                    we will talk about subtitles\n\
                    and how they are written";
    assert_eq!(srt(vtt), expected);
}

#[test]
fn a_blank_line_of_the_body_stays_and_each_cue_adds_one() {
    let vtt = "WEBVTT\n\n00:00:01.000 --> 00:00:04.000\nfirst\n\n00:00:05.000 --> 00:00:06.500\nsecond\n";
    assert_eq!(
        srt(vtt),
        "1\n00:00:01,000 --> 00:00:04,000\nfirst\n\n\n2\n00:00:05,000 --> 00:00:06,500\nsecond"
    );
}

#[test]
fn cues_that_follow_each_other_directly_are_separated_by_one_empty_line() {
    let vtt = "WEBVTT\n\n00:00:01.000 --> 00:00:04.000\nfirst\n00:00:05.000 --> 00:00:06.500\nsecond\n";
    assert_eq!(
        srt(vtt),
        "1\n00:00:01,000 --> 00:00:04,000\nfirst\n\n2\n00:00:05,000 --> 00:00:06,500\nsecond"
    );
}

#[test]
fn cues_are_numbered_from_one_in_order() {
    let mut vtt = String::from("WEBVTT\n\n");
    for i in 0..12 {
        vtt.push_str(&format!("00:00:{:02}.000 --> 00:00:{:02}.500\nline {}\n", i, i, i));
    }
    let out = srt(&vtt);
    let lines: Vec<&str> = out.lines().collect();
    let mut numbers: Vec<String> = Vec::new();
    for k in 0..lines.len() {
        if k + 1 < lines.len() && lines[k + 1].contains(" --> ") {
            numbers.push(lines[k].to_string());
        }
    }
    let expected: Vec<String> = (1..=12).map(|n: usize| n.to_string()).collect();
    assert_eq!(numbers, expected);
}

#[test]
fn the_output_has_one_cue_for_each_timing_line() {
    let vtt = "WEBVTT\n\n00:00:01.000 --> 00:00:02.000\na\n\n00:03.000 --> 00:04.000\nb\n\nnot a timing line\n\n00:00:05.000 --> 00:00:06.000\nc\n";
    let out = srt(vtt);
    let cues = out.lines().filter(|l| l.contains(",") && l.contains(" --> ")).count();
    assert_eq!(cues, 3);
    assert_eq!(
        out,
        "1\n00:00:01,000 --> 00:00:02,000\na\n\n\n2\n00:00:03,000 --> 00:00:04,000\nb\n\nnot a timing line\n\n\n3\n00:00:05,000 --> 00:00:06,000\nc"
    );
}

#[test]
fn nothing_of_the_header_is_in_the_output() {
    let vtt = "WEBVTT - a title\nNOTE secret\n00:00:09.000 --> 00:00:10.000\nheader text\n\n00:00:01.000 --> 00:00:02.000\nbody\n";
    let out = srt(vtt);
    assert_eq!(out, "1\n00:00:01,000 --> 00:00:02,000\nbody");
    assert!(!out.contains("WEBVTT"));
    assert!(!out.contains("secret"));
    assert!(!out.contains("header text"));
    assert!(!out.contains("00:00:09"));
}

#[test]
fn the_header_ends_at_a_line_of_whitespace() {
    let vtt = "WEBVTT\n \t \n00:00:01.000 --> 00:00:02.000\nbody\n";
    assert_eq!(srt(vtt), "1\n00:00:01,000 --> 00:00:02,000\nbody");
}

#[test]
fn the_header_does_not_change_the_output() {
    let body = "00:00:01.000 --> 00:00:02.000\nbody\n\n00:03.000 --> 00:04.000\nmore\n";
    let one = format!("WEBVTT\n\n{}", body);
    let two = format!("WEBVTT\nKind: captions\nLanguage: en\n  \n{}", body);
    let three = format!("\n{}", body);
    assert_eq!(srt(&one), srt(&two));
    assert_eq!(srt(&one), srt(&three));
}

#[test]
fn a_document_without_a_blank_line_gives_nothing() {
    assert_eq!(srt("WEBVTT\n00:00:01.000 --> 00:00:04.000\nHello\n"), "");
    assert_eq!(srt("WEBVTT"), "");
    assert_eq!(srt(""), "");
}

#[test]
fn a_document_that_is_only_a_header_gives_nothing() {
    assert_eq!(srt("WEBVTT\n\n"), "");
    assert_eq!(srt("\n"), "");
}

#[test]
fn full_timestamps_get_a_comma() {
    assert_eq!(srt("\n12:34:56.789 --> 23:59:59.999\n"), "1\n12:34:56,789 --> 23:59:59,999");
    assert_eq!(srt("\n00:00:00.000 --> 99:59:59.001\n"), "1\n00:00:00,000 --> 99:59:59,001");
}

#[test]
fn short_timestamps_get_hours_and_a_comma() {
    assert_eq!(srt("\n01:02.003 --> 04:05.006\n"), "1\n00:01:02,003 --> 00:04:05,006");
    assert_eq!(srt("\n59:59.999 --> 00:00.000\n"), "1\n00:59:59,999 --> 00:00:00,000");
}

#[test]
fn every_full_timestamp_gets_its_comma() {
    let p = Patterns::new().unwrap();
    for h in [0, 1, 9, 10, 23, 99] {
        for m in [0, 7, 59] {
            for s in [0, 30, 59] {
                for f in [0, 1, 10, 999] {
                    let vtt = format!(
                        "\n{:02}:{:02}:{:02}.{:03} --> {:02}:{:02}:{:02}.{:03}\n",
                        h, m, s, f, h, s, m, f
                    );
                    let expected = format!(
                        "1\n{:02}:{:02}:{:02},{:03} --> {:02}:{:02}:{:02},{:03}",
                        h, m, s, f, h, s, m, f
                    );
                    assert_eq!(p.vtt_to_srt(&vtt), Ok(expected));
                }
            }
        }
    }
}

#[test]
fn every_short_timestamp_gets_hours_and_its_comma() {
    let p = Patterns::new().unwrap();
    for m in [0, 7, 10, 59, 99] {
        for s in [0, 30, 59] {
            for f in [0, 1, 10, 999] {
                let vtt = format!("\n{:02}:{:02}.{:03} --> {:02}:{:02}.{:03}\n", m, s, f, s, m, f);
                let expected =
                    format!("1\n00:{:02}:{:02},{:03} --> 00:{:02}:{:02},{:03}", m, s, f, s, m, f);
                assert_eq!(p.vtt_to_srt(&vtt), Ok(expected));
            }
        }
    }
}

#[test]
fn cue_settings_are_removed() {
    assert_eq!(
        srt("\n00:00:00.060 --> 00:00:04.490 align:start position:0%\n"),
        "1\n00:00:00,060 --> 00:00:04,490"
    );
    assert_eq!(
        srt("\n00:00.060 --> 00:04.490 line:90% size:50% align:end\n"),
        "1\n00:00:00,060 --> 00:00:04,490"
    );
}

#[test]
fn the_arrow_stays() {
    let out = srt("\n00:00:01.000 --> 00:00:02.000 align:start\n");
    assert!(out.contains(" --> "));
}

#[test]
fn tags_are_removed_from_content() {
    assert_eq!(srt("\n<i>hello</i> world\n"), "hello world");
    assert_eq!(srt("\n<b>bold</b> and <u>under</u><br/>\n"), "bold and under");
}

#[test]
fn content_keeps_its_cue_settings_and_dots() {
    assert_eq!(srt("\nsee align:start at 1.5\n"), "see align:start at 1.5");
}

#[test]
fn a_timestamp_inside_a_line_does_not_make_a_timing_line() {
    assert_eq!(srt("\nat 00:00:01.000 it starts\n"), "at 00:00:01.000 it starts");
    assert_eq!(srt("\n 00:00:01.000 --> 00:00:02.000\n"), "00:00:01.000 --> 00:00:02.000");
}

#[test]
fn malformed_timing_lines_pass_as_content() {
    assert_eq!(srt("\n0:00:01.000 --> 0:00:02.000\n"), "0:00:01.000 --> 0:00:02.000");
    assert_eq!(srt("\n00:00:01,000 --> 00:00:02,000\n"), "00:00:01,000 --> 00:00:02,000");
    assert_eq!(srt("\n00:00:01.00 --> 00:00:02.00\n"), "00:00:01.00 --> 00:00:02.00");
}

#[test]
fn cue_identifiers_pass_as_content() {
    assert_eq!(
        srt("WEBVTT\n\nintro\n00:00:01.000 --> 00:00:02.000\nHi\n"),
        "intro\n\n1\n00:00:01,000 --> 00:00:02,000\nHi"
    );
}

#[test]
fn digits_of_other_scripts_count_as_digits() {
    let vtt = "\n\u{0660}\u{0661}:\u{0662}\u{0663}.\u{0664}\u{0665}\u{0666} --> 00:01.000\n";
    assert_eq!(
        srt(vtt),
        "1\n00:\u{0660}\u{0661}:\u{0662}\u{0663},\u{0664}\u{0665}\u{0666} --> 00:00:01,000"
    );
}

#[test]
fn lines_may_end_in_carriage_return_and_line_feed() {
    let vtt = "WEBVTT\r\n\r\n00:00:01.000 --> 00:00:04.000\r\nHello\r\n";
    assert_eq!(srt(vtt), "1\n00:00:01,000 --> 00:00:04,000\nHello");
}

#[test]
fn the_output_is_trimmed() {
    assert_eq!(srt("\n\n\n  text  \n\n\n"), "text");
    assert_eq!(srt("\n00:00:01.000 --> 00:00:02.000\nlast\n\n\n"), "1\n00:00:01,000 --> 00:00:02,000\nlast");
}

#[test]
fn converting_twice_gives_the_same_text() {
    let vtt = "WEBVTT\n\n00:00:01.000 --> 00:00:04.000 align:start\n<i>Hello</i> world\n";
    assert_eq!(vtt2srt(vtt), vtt2srt(vtt));
}

#[test]
fn the_other_direction_is_unsupported() {
    assert_eq!(
        convert("1\n00:00:01,000 --> 00:00:04,000\nHello\n", Direction::SRT2VTT),
        Err(ConvError::Unsupported)
    );
    assert_eq!(convert("", Direction::SRT2VTT), Err(ConvError::Unsupported));
}

#[test]
fn convert_goes_from_vtt_to_srt() {
    let vtt = "WEBVTT\n\n01:02.003 --> 01:04.005\nHi\n";
    assert_eq!(
        convert(vtt, Direction::VTT2SRT),
        Ok(String::from("1\n00:01:02,003 --> 00:01:04,005\nHi"))
    );
    assert_eq!(convert(vtt, Direction::VTT2SRT), vtt2srt(vtt));
}
