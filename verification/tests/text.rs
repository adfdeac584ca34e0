use hntui::text::{decimal_string, noun, spaces};

#[test]
fn numbers_are_written_in_decimal() {
    assert_eq!(decimal_string(0), "0");
    assert_eq!(decimal_string(7), "7");
    assert_eq!(decimal_string(9), "9");
    assert_eq!(decimal_string(10), "10");
    assert_eq!(decimal_string(99), "99");
    assert_eq!(decimal_string(100), "100");
    assert_eq!(decimal_string(12_345), "12345");
    assert_eq!(decimal_string(1_234_567_890), "1234567890");
    assert_eq!(decimal_string(u64::MAX), "18446744073709551615");
}

#[test]
fn decimal_text_is_what_display_gives() {
    let mut n: u64 = 0;
    while n < 100_000 {
        assert_eq!(decimal_string(n), format!("{}", n));
        n += 37;
    }
    let mut n: u64 = 1;
    for _ in 0..19 {
        assert_eq!(decimal_string(n), format!("{}", n));
        assert_eq!(decimal_string(n - 1), format!("{}", n - 1));
        n *= 10;
    }
}

#[test]
fn spaces_are_as_many_as_asked() {
    assert_eq!(spaces(0), "");
    assert_eq!(spaces(1), " ");
    assert_eq!(spaces(3), "   ");
    assert_eq!(spaces(40).len(), 40);
    assert!(spaces(40).chars().all(|c| c == ' '));
}

#[test]
fn one_takes_the_singular() {
    assert_eq!(noun(1, "point", "points"), "point");
    assert_eq!(noun(0, "point", "points"), "points");
    assert_eq!(noun(2, "point", "points"), "points");
    assert_eq!(noun(u64::MAX, "comment", "comments"), "comments");
}
