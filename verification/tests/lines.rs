use subconv::convert::conv::{out_path, remove_header};
use subconv::convert::lines::split_lines;
use subconv::convert::number::{digit_char, push_decimal};
use subconv::convert::text::{blank, chars_of, string_of, trim};

fn strings(lines: &[&str]) -> Vec<String> {
    lines.iter().map(|l| l.to_string()).collect()
}

#[test]
fn an_empty_text_has_no_lines() {
    assert_eq!(split_lines(""), Vec::<String>::new());
}

#[test]
fn the_last_line_needs_no_line_ending() {
    assert_eq!(split_lines("a"), strings(&["a"]));
    assert_eq!(split_lines("a\n"), strings(&["a"]));
    assert_eq!(split_lines("a\nb"), strings(&["a", "b"]));
    assert_eq!(split_lines("a\nb\n"), strings(&["a", "b"]));
}

#[test]
fn empty_lines_are_lines() {
    assert_eq!(split_lines("\n"), strings(&[""]));
    assert_eq!(split_lines("\n\n"), strings(&["", ""]));
    assert_eq!(split_lines("a\n\nb"), strings(&["a", "", "b"]));
    assert_eq!(split_lines("\na"), strings(&["", "a"]));
}

#[test]
fn a_carriage_return_before_a_line_feed_ends_the_line_with_it() {
    assert_eq!(split_lines("a\r\nb\r\n"), strings(&["a", "b"]));
    assert_eq!(split_lines("\r\n"), strings(&[""]));
    assert_eq!(split_lines("a\r\r\nb"), strings(&["a\r", "b"]));
}

#[test]
fn a_carriage_return_alone_ends_no_line() {
    assert_eq!(split_lines("a\rb"), strings(&["a\rb"]));
    assert_eq!(split_lines("a\r"), strings(&["a\r"]));
    assert_eq!(split_lines("\r"), strings(&["\r"]));
}

#[test]
fn lines_are_split_as_std_splits_them() {
    let texts = [
        "", "a", "\n", "\r\n", "\r", "a\r", "a\r\n", "a\n\r", "a\n\r\n", "\n\n\n", "x\r\r\n\ry\n",
        "WEBVTT\n\n00:00:01.000 --> 00:00:02.000\nh\u{e9}llo \u{4e16}\u{754c}\n",
    ];
    for text in texts {
        let expected: Vec<String> = text.lines().map(String::from).collect();
        assert_eq!(split_lines(text), expected);
    }
}

#[test]
fn the_header_goes_up_to_the_first_blank_line() {
    assert_eq!(remove_header(strings(&["WEBVTT", "", "a", "b"])), strings(&["a", "b"]));
    assert_eq!(
        remove_header(strings(&["WEBVTT", "Kind: captions", " \t", "a", "", "b"])),
        strings(&["a", "", "b"])
    );
    assert_eq!(remove_header(strings(&["", "a"])), strings(&["a"]));
}

#[test]
fn lines_without_a_blank_line_are_all_header() {
    assert_eq!(remove_header(strings(&["WEBVTT", "a", "b"])), Vec::<String>::new());
    assert_eq!(remove_header(Vec::new()), Vec::<String>::new());
}

#[test]
fn a_blank_line_at_the_end_leaves_nothing() {
    assert_eq!(remove_header(strings(&["WEBVTT", ""])), Vec::<String>::new());
    assert_eq!(remove_header(strings(&[""])), Vec::<String>::new());
}

#[test]
fn blank_lines_hold_only_whitespace() {
    assert!(blank(""));
    assert!(blank(" "));
    assert!(blank(" \t\r\u{a0}\u{3000}"));
    assert!(!blank("a"));
    assert!(!blank("  a  "));
    assert!(!blank("\u{200b}"));
    assert!(!blank("_"));
}

#[test]
fn blank_agrees_with_trim() {
    for line in ["", " ", "\t\t", " a", "a ", "\u{2003}", "0"] {
        assert_eq!(blank(line), line.trim() == "");
        assert_eq!(blank(line), trim(line) == "");
    }
}

#[test]
fn trim_removes_whitespace_at_both_ends() {
    assert_eq!(trim("  a b  "), "a b");
    assert_eq!(trim("\n\n1\nx\n"), "1\nx");
    assert_eq!(trim("a"), "a");
    assert_eq!(trim(""), "");
    assert_eq!(trim(" \t\n"), "");
    assert_eq!(trim("\u{a0}x\u{3000}"), "x");
    assert_eq!(trim(" a"), "a");
    assert_eq!(trim("a "), "a");
}

#[test]
fn trim_agrees_with_std() {
    for text in ["", " ", "a", " a ", "\r\n a \t b \n", "\u{2028}x y\u{85}", "\u{200b} "] {
        assert_eq!(trim(text), text.trim());
    }
}

#[test]
fn chars_and_back() {
    let text = "h\u{e9}llo \u{4e16}\u{754c}";
    let v = chars_of(text);
    assert_eq!(v, text.chars().collect::<Vec<char>>());
    assert_eq!(string_of(&v, 0, v.len()), text);
    assert_eq!(string_of(&v, 1, 4), "\u{e9}ll");
    assert_eq!(string_of(&v, 3, 3), "");
    assert_eq!(chars_of(""), Vec::<char>::new());
}

#[test]
fn digits() {
    let all: Vec<char> = (0..10).map(|d: usize| digit_char(d)).collect();
    assert_eq!(all, vec!['0', '1', '2', '3', '4', '5', '6', '7', '8', '9']);
}

#[test]
fn decimal_numbers() {
    for n in [0usize, 1, 7, 9, 10, 11, 99, 100, 101, 12345, 1_000_000, usize::MAX] {
        let mut out = String::from("n=");
        push_decimal(&mut out, n);
        assert_eq!(out, format!("n={}", n));
    }
}

#[test]
fn out_path_replaces_the_extension() {
    assert_eq!(out_path("a.vtt"), Some(String::from("a.srt")));
    assert_eq!(out_path("/tmp/some dir/film.en.vtt"), Some(String::from("/tmp/some dir/film.en.srt")));
    assert_eq!(out_path(".vtt"), Some(String::from(".srt")));
    assert_eq!(out_path("a.vtt.vtt"), Some(String::from("a.vtt.srt")));
    assert_eq!(out_path("\u{4e16}\u{754c}.vtt"), Some(String::from("\u{4e16}\u{754c}.srt")));
}

#[test]
fn out_path_wants_the_extension() {
    assert_eq!(out_path("a.srt"), None);
    assert_eq!(out_path("a.VTT"), None);
    assert_eq!(out_path("a.vtt "), None);
    assert_eq!(out_path("vtt"), None);
    assert_eq!(out_path(""), None);
    assert_eq!(out_path("avtt"), None);
}

#[test]
fn whitespace_is_what_std_takes_for_it() {
    let listed = |c: char| {
        let n = c as u32;
        (0x09..=0x0d).contains(&n)
            || n == 0x20
            || n == 0x85
            || n == 0xa0
            || n == 0x1680
            || (0x2000..=0x200a).contains(&n)
            || n == 0x2028
            || n == 0x2029
            || n == 0x202f
            || n == 0x205f
            || n == 0x3000
    };
    let mut count = 0;
    for n in 0..=0x10ffffu32 {
        if let Some(c) = char::from_u32(n) {
            assert_eq!(c.is_whitespace(), listed(c), "U+{:04X}", n);
            let text = c.to_string();
            assert_eq!(blank(&text), listed(c), "U+{:04X}", n);
            if listed(c) {
                count += 1;
            }
        }
    }
    assert_eq!(count, 25);
}

#[test]
fn every_whitespace_character_is_trimmed() {
    let spaces = "\u{9}\u{a}\u{b}\u{c}\u{d}\u{20}\u{85}\u{a0}\u{1680}\u{2000}\u{2001}\u{2002}\
                  \u{2003}\u{2004}\u{2005}\u{2006}\u{2007}\u{2008}\u{2009}\u{200a}\u{2028}\
                  \u{2029}\u{202f}\u{205f}\u{3000}";
    assert_eq!(spaces.chars().count(), 25);
    assert!(blank(spaces));
    assert_eq!(trim(&format!("{}x{}y{}", spaces, spaces, spaces)), format!("x{}y", spaces));
    assert_eq!(trim("\u{200b}x\u{feff}"), "\u{200b}x\u{feff}");
}
