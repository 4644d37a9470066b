use media_pipeline::utils::decimal::{format_decimal, format_seconds, parse_digits, parse_seconds};
use media_pipeline::utils::text::{
    chars_of, contains_text, join2, join3, starts_with_char, str_eq, string_of, strip_prefix,
    text_le,
};

#[test]
fn texts_are_compared_by_their_characters() {
    assert!(str_eq("", ""));
    assert!(str_eq("video", "video"));
    assert!(!str_eq("video", "Video"));
    assert!(!str_eq("video", "videos"));
    assert!(str_eq("转码", "转码"));
}

#[test]
fn texts_are_joined_in_order() {
    assert_eq!(join2("ab", "cd"), "abcd");
    assert_eq!(join2("", ""), "");
    assert_eq!(join3("a", "/", "b"), "a/b");
    assert_eq!(join3("时长", ": ", "无效"), "时长: 无效");
}

#[test]
fn a_text_is_its_characters() {
    assert_eq!(chars_of("a转b"), vec!['a', '转', 'b']);
    assert!(chars_of("").is_empty());
    let chars = chars_of("hello");
    assert_eq!(string_of(&chars, 1, 4), "ell");
    assert_eq!(string_of(&chars, 0, 5), "hello");
    assert_eq!(string_of(&chars, 2, 2), "");
}

#[test]
fn a_needle_is_found_wherever_it_stands() {
    assert!(contains_text("h264_nvenc", "h264_nvenc"));
    assert!(contains_text(" V....D h264_nvenc  NVIDIA", "h264_nvenc"));
    assert!(contains_text("xxh264_qsv", "h264_qsv"));
    assert!(contains_text("anything", ""));
    assert!(contains_text("", ""));
    assert!(contains_text("aab", "ab"));
    assert!(contains_text("编码器 h264_amf 可用", "h264_amf"));
}

#[test]
fn a_needle_that_is_not_there_is_not_found() {
    assert!(!contains_text("", "a"));
    assert!(!contains_text("h264_nven", "h264_nvenc"));
    assert!(!contains_text("h264 nvenc", "h264_nvenc"));
    assert!(!contains_text("abc", "abcd"));
    assert!(!contains_text("H264_QSV", "h264_qsv"));
}

#[test]
fn the_first_character_is_looked_at() {
    assert!(starts_with_char("/files", '/'));
    assert!(starts_with_char(".hidden", '.'));
    assert!(!starts_with_char("files/", '/'));
    assert!(!starts_with_char("", '/'));
}

#[test]
fn whole_numbers_are_written_in_decimal() {
    assert_eq!(format_decimal(0), "0");
    assert_eq!(format_decimal(7), "7");
    assert_eq!(format_decimal(10), "10");
    assert_eq!(format_decimal(1_234_567_890), "1234567890");
    assert_eq!(format_decimal(u64::MAX), "18446744073709551615");
}

#[test]
fn microseconds_are_written_as_seconds() {
    assert_eq!(format_seconds(0), "0.000000");
    assert_eq!(format_seconds(1), "0.000001");
    assert_eq!(format_seconds(1_000_000), "1.000000");
    assert_eq!(format_seconds(12_345_678), "12.345678");
    assert_eq!(format_seconds(90_050_000), "90.050000");
    assert_eq!(format_seconds(u64::MAX), "18446744073709.551615");
}

#[test]
fn runs_of_digits_are_read_as_numbers() {
    let chars = chars_of("x0123y");
    assert_eq!(parse_digits(&chars, 1, 5), Some(123));
    assert_eq!(parse_digits(&chars, 1, 2), Some(0));
    assert_eq!(parse_digits(&chars, 0, 5), None);
    assert_eq!(parse_digits(&chars, 1, 6), None);
    assert_eq!(parse_digits(&chars, 3, 3), None);
    let chars = chars_of("18446744073709551615");
    assert_eq!(parse_digits(&chars, 0, chars.len()), Some(u64::MAX));
    let chars = chars_of("18446744073709551616");
    assert_eq!(parse_digits(&chars, 0, chars.len()), None);
    let chars = chars_of("000000000000000000000000000000000000000042");
    assert_eq!(parse_digits(&chars, 0, chars.len()), Some(42));
}

#[test]
fn seconds_are_read_as_microseconds() {
    assert_eq!(parse_seconds("0"), Some(0));
    assert_eq!(parse_seconds("12"), Some(12_000_000));
    assert_eq!(parse_seconds("12.5"), Some(12_500_000));
    assert_eq!(parse_seconds("90.050000"), Some(90_050_000));
    assert_eq!(parse_seconds("0.000001"), Some(1));
    assert_eq!(parse_seconds("0.0000019"), Some(1));
    assert_eq!(parse_seconds("007.25"), Some(7_250_000));
    assert_eq!(parse_seconds("18446744073709.551615"), Some(u64::MAX));
}

#[test]
fn what_is_not_written_as_seconds_is_not_read() {
    for text in ["", ".", "1.", ".5", "1.2.3", "-1.0", "+1.0", "1e3", "1,5", " 1", "1 ", "inf", "NaN", "１２"]
    {
        assert_eq!(parse_seconds(text), None, "{:?}", text);
    }
    assert_eq!(parse_seconds("18446744073709.551616"), None);
    assert_eq!(parse_seconds("99999999999999999999"), None);
}

#[test]
fn what_is_written_is_read_back() {
    for micros in [0u64, 1, 999_999, 1_000_000, 1_000_001, 81_045_000, u64::MAX] {
        assert_eq!(parse_seconds(&format_seconds(micros)), Some(micros));
    }
}

#[test]
fn a_prefix_is_taken_off() {
    assert_eq!(strip_prefix("sqlite:/x", "sqlite:"), Some("/x".to_string()));
    assert_eq!(strip_prefix("abc", ""), Some("abc".to_string()));
    assert_eq!(strip_prefix("abc", "abc"), Some(String::new()));
    assert_eq!(strip_prefix("", ""), Some(String::new()));
    assert_eq!(strip_prefix("转码任务", "转码"), Some("任务".to_string()));
    assert_eq!(strip_prefix("abc", "abcd"), None);
    assert_eq!(strip_prefix("abc", "b"), None);
    assert_eq!(strip_prefix("", "a"), None);
}

#[test]
fn texts_are_ordered_as_in_a_dictionary() {
    let ordered = ["", "A", "B", "a", "a.txt", "aa", "ab", "b", "z", "é", "中文"];
    for (i, left) in ordered.iter().enumerate() {
        for (j, right) in ordered.iter().enumerate() {
            assert_eq!(text_le(left, right), i <= j, "{:?} {:?}", left, right);
            assert_eq!(text_le(left, right), left <= right);
        }
    }
}
