use hntui::parse::{chars_of, parse_unsigned, same_text, split};

#[test]
fn a_text_is_split_at_each_separator() {
    assert_eq!(split("a, b, c", ", "), vec!["a", "b", "c"]);
    assert_eq!(split("q, esc", ", "), vec!["q", "esc"]);
    assert_eq!(split("j, arrow_down", ", "), vec!["j", "arrow_down"]);
}

#[test]
fn a_text_without_separator_is_one_piece() {
    assert_eq!(split("enter", ", "), vec!["enter"]);
    assert_eq!(split("", ", "), vec![""]);
    assert_eq!(split(",", ", "), vec![","]);
    assert_eq!(split("a,b", ", "), vec!["a,b"]);
}

#[test]
fn a_separator_at_an_end_leaves_an_empty_piece() {
    assert_eq!(split(", a", ", "), vec!["", "a"]);
    assert_eq!(split("a, ", ", "), vec!["a", ""]);
    assert_eq!(split(", ", ", "), vec!["", ""]);
    assert_eq!(split("a, , b", ", "), vec!["a", "", "b"]);
}

#[test]
fn separators_are_found_from_the_left_and_do_not_overlap() {
    assert_eq!(split("aaa", "aa"), vec!["", "a"]);
    assert_eq!(split("aaaa", "aa"), vec!["", "", ""]);
    assert_eq!(split("a,, b", ", "), vec!["a,", "b"]);
}

#[test]
fn splitting_is_what_the_standard_library_does() {
    let texts = [
        "", "a", ", ", "a, b", "a,b", " , ", ",, ,", "x, y, z, ", ", , , ", "é, ü", "日本, 語",
        "a ,b", "1, 2, 3, 4, 5, 6, 7, 8, 9",
    ];
    for text in texts {
        for separator in [", ", ",", " ", "é", ", , "] {
            let expected: Vec<&str> = text.split(separator).collect();
            assert_eq!(split(text, separator), expected, "{:?} at {:?}", text, separator);
        }
    }
}

#[test]
fn an_empty_separator_separates_nothing() {
    assert_eq!(split("abc", ""), vec!["abc"]);
    assert_eq!(split("", ""), vec![""]);
}

#[test]
fn text_with_wide_characters_is_split_at_characters() {
    assert_eq!(split("é, ü", ", "), vec!["é", "ü"]);
    assert_eq!(split("日本語", "本"), vec!["日", "語"]);
}

#[test]
fn numbers_are_read_in_decimal() {
    assert_eq!(parse_unsigned("0", 255), Some(0));
    assert_eq!(parse_unsigned("7", 255), Some(7));
    assert_eq!(parse_unsigned("30", 500), Some(30));
    assert_eq!(parse_unsigned("255", 255), Some(255));
    assert_eq!(parse_unsigned("500", 500), Some(500));
    assert_eq!(parse_unsigned("1000000", 1_000_000), Some(1_000_000));
}

#[test]
fn a_number_above_the_bound_is_none() {
    assert_eq!(parse_unsigned("256", 255), None);
    assert_eq!(parse_unsigned("501", 500), None);
    assert_eq!(parse_unsigned("1", 0), None);
    assert_eq!(parse_unsigned("99999999999999999999999999", 255), None);
    assert_eq!(parse_unsigned("1000001", 1_000_000), None);
    assert_eq!(parse_unsigned("4294967295", u32::MAX), Some(u32::MAX));
    assert_eq!(parse_unsigned("4294967296", u32::MAX), None);
    assert_eq!(parse_unsigned("42949672950", u32::MAX), None);
}

#[test]
fn one_plus_sign_may_stand_in_front() {
    assert_eq!(parse_unsigned("+5", 255), Some(5));
    assert_eq!(parse_unsigned("+0", 255), Some(0));
    assert_eq!(parse_unsigned("+", 255), None);
    assert_eq!(parse_unsigned("++5", 255), None);
    assert_eq!(parse_unsigned("5+", 255), None);
}

#[test]
fn zeros_in_front_do_not_count() {
    assert_eq!(parse_unsigned("007", 255), Some(7));
    assert_eq!(parse_unsigned("000000000000000000000000255", 255), Some(255));
    assert_eq!(parse_unsigned("0000", 0), Some(0));
}

#[test]
fn anything_but_digits_is_none() {
    assert_eq!(parse_unsigned("", 255), None);
    assert_eq!(parse_unsigned("-1", 255), None);
    assert_eq!(parse_unsigned("12a", 255), None);
    assert_eq!(parse_unsigned("a12", 255), None);
    assert_eq!(parse_unsigned(" 1", 255), None);
    assert_eq!(parse_unsigned("1 ", 255), None);
    assert_eq!(parse_unsigned("1.0", 255), None);
    assert_eq!(parse_unsigned("٣", 255), None);
    assert_eq!(parse_unsigned("999999999999999999999x", 255), None);
}

#[test]
fn reading_a_number_is_what_the_standard_library_does() {
    let texts = [
        "", "0", "1", "9", "10", "99", "100", "254", "255", "256", "300", "+1", "+255", "+256",
        "+", "-", "-0", "-1", "00", "0255", "0256", "1e2", "0x10", " 5", "5 ", "٣", "２", "65535",
        "65536", "4294967295", "4294967296",
    ];
    for text in texts {
        assert_eq!(parse_unsigned(text, 255), text.parse::<u8>().ok().map(u32::from), "{:?}", text);
        assert_eq!(
            parse_unsigned(text, 65_535),
            text.parse::<u16>().ok().map(u32::from),
            "{:?}",
            text
        );
        assert_eq!(parse_unsigned(text, u32::MAX), text.parse::<u32>().ok(), "{:?}", text);
    }
}

#[test]
fn texts_are_the_same_by_their_characters() {
    assert!(same_text("", ""));
    assert!(same_text("quit", "quit"));
    assert!(!same_text("quit", "Quit"));
    assert!(!same_text("quit", "quit "));
    assert!(!same_text("", " "));
}

#[test]
fn the_characters_of_a_text_come_in_order() {
    assert_eq!(chars_of(""), Vec::<char>::new());
    assert_eq!(chars_of("esc"), vec!['e', 's', 'c']);
    assert_eq!(chars_of("é1"), vec!['é', '1']);
}
