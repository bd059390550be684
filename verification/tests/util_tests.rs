//! Text utilities, error formatting, dates, colours and payload packages.

use std::io::Write;

use fimfareader::dates::{day_of, parse_rfc3339};
use fimfareader::decode::hex_color;
use fimfareader::encode::color_hex;
use fimfareader::error::{lower, Error, ErrorBuilder, ErrorKind};
use fimfareader::fetcher::identity_tag;
use fimfareader::package::{html_name, html_text, open_package};
use fimfareader::parse::unescape;
use fimfareader::story::Color;
use fimfareader::text::{chars_of, decimal_string, parse_i32_range, string_from_chars};

#[test]
fn decimal_strings_are_exact() {
    assert_eq!(decimal_string(0), "0");
    assert_eq!(decimal_string(7), "7");
    assert_eq!(decimal_string(105), "105");
    assert_eq!(decimal_string(18446744073709551615), "18446744073709551615");
}

#[test]
fn integer_parsing_matches_std() {
    for text in ["0", "42", "-42", "+17", "2147483647", "-2147483648", "007"] {
        let chars = chars_of(text);
        let ours = parse_i32_range(&chars, 0, chars.len());
        assert_eq!(ours, text.parse::<i32>().ok(), "on {:?}", text);
    }
    for text in ["", "-", "+", "12a", "2147483648", "-2147483649", "99999999999999999999"] {
        let chars = chars_of(text);
        assert!(parse_i32_range(&chars, 0, chars.len()).is_none(), "on {:?}", text);
    }
}

#[test]
fn chars_round_trip_through_strings() {
    let chars = chars_of("héllo, wörld");
    assert_eq!(chars.len(), 12);
    assert_eq!(string_from_chars(&chars), "héllo, wörld");
}

#[test]
fn unescaping_handles_the_four_escapes() {
    let run = |s: &str| string_from_chars(&unescape(&chars_of(s)));
    assert_eq!(run("a\\,b"), "a,b");
    assert_eq!(run("a\\|b"), "a|b");
    assert_eq!(run("a\\)b"), "a)b");
    assert_eq!(run("a\\\\b"), "a\\b");
    assert_eq!(run("\\\\\\,"), "\\,");
    assert_eq!(run("plain"), "plain");
}

#[test]
fn lower_affects_only_the_first_character() {
    assert_eq!(lower("Invalid value"), "invalid value");
    assert_eq!(lower("HELLO"), "hELLO");
    assert_eq!(lower(""), "");
}

#[test]
fn error_messages_format_like_sentences() {
    let error = Error::query("Invalid value for number type");
    assert_eq!(
        error.to_message(),
        "Query error, invalid value for number type."
    );
    let error = ErrorBuilder::new(ErrorKind::ArchiveError).build();
    assert_eq!(error.to_message(), "Archive error, unknown cause.");
    let error = Error::invalid();
    assert!(matches!(error.kind(), ErrorKind::InvalidStory));
    assert!(error.message().is_none());
    let error = ErrorBuilder::new(ErrorKind::UsageError)
        .message("Bad invocation")
        .source("argv")
        .build();
    assert!(matches!(error.kind(), ErrorKind::UsageError));
    assert_eq!(error.message().unwrap(), "Bad invocation");
}

#[test]
fn rfc3339_reading_is_exact() {
    assert_eq!(parse_rfc3339("1970-01-01T00:00:00+00:00"), Some(0));
    assert_eq!(parse_rfc3339("2015-06-15T00:00:00+00:00"), Some(1434326400));
    assert_eq!(parse_rfc3339("2015-06-15T02:00:00+02:00"), Some(1434326400));
    assert_eq!(parse_rfc3339("not a date"), None);
}

#[test]
fn day_of_rounds_toward_minus_infinity() {
    assert_eq!(day_of(0), 0);
    assert_eq!(day_of(86399), 0);
    assert_eq!(day_of(86400), 1);
    assert_eq!(day_of(-1), -1);
    assert_eq!(day_of(-86400), -1);
    assert_eq!(day_of(-86401), -2);
}

#[test]
fn colours_round_trip_through_hex() {
    let color = hex_color("aabbcc").unwrap();
    assert_eq!((color.red, color.green, color.blue), (170, 187, 204));
    assert_eq!(hex_color("AABBCC").unwrap().red, 170);
    assert!(hex_color("aabbc").is_none());
    assert!(hex_color("gggggg").is_none());
    let back = color_hex(&Color { red: 1, green: 255, blue: 0 });
    assert_eq!(back, "01ff00");
    assert_eq!(hex_color(&back).unwrap(), Color { red: 1, green: 255, blue: 0 });
}

#[test]
fn identity_differs_between_containers() {
    assert_ne!(identity_tag(1), identity_tag(2));
}

fn build_package(entries: &[(&str, &str)]) -> Vec<u8> {
    let cursor = std::io::Cursor::new(Vec::new());
    let mut writer = zip::ZipWriter::new(cursor);
    let options = zip::write::SimpleFileOptions::default();
    for (name, content) in entries {
        writer.start_file(*name, options).unwrap();
        writer.write_all(content.as_bytes()).unwrap();
    }
    writer.finish().unwrap().into_inner()
}

#[test]
fn html_entries_concatenate_in_order() {
    let data = build_package(&[
        ("chapter-1.html", "It began. "),
        ("style.css", "body {}"),
        ("chapter-2.html", "It ended."),
    ]);
    let mut package = open_package(data).unwrap();
    assert_eq!(html_text(&mut package), "It began. It ended.");
}

#[test]
fn html_suffix_is_recognized() {
    assert!(html_name("a/b/chapter.html"));
    assert!(!html_name("a/b/chapter.txt"));
    assert!(!html_name("html"));
    assert!(!html_name(""));
}

#[test]
fn garbage_bytes_are_not_a_package() {
    let error = open_package(vec![1, 2, 3, 4]).unwrap_err();
    assert!(matches!(error.kind(), ErrorKind::ArchiveError));
}
