use reddit_video::decimal::decimal_chars;
use reddit_video::number::{format_number, human_number, pad_left};

#[test]
fn human_number_works() {
    assert_eq!(human_number(0), "0");
    assert_eq!(human_number(1), "1");
    assert_eq!(human_number(10), "10");
    assert_eq!(human_number(99), "99");
    assert_eq!(human_number(500), "500");
    assert_eq!(human_number(999), "999");
    assert_eq!(human_number(1_000), "1k");
    assert_eq!(human_number(9_999), "9.9k");
    assert_eq!(human_number(10_000), "10k");
    assert_eq!(human_number(12_345), "12k");
    assert_eq!(human_number(99_999), "99k");
    assert_eq!(human_number(100_000), "100k");
    assert_eq!(human_number(123_456), "123k");
    assert_eq!(human_number(999_999), "999k");
    assert_eq!(human_number(1_000_000), "1M");
    assert_eq!(human_number(10_000_000), "10M");
    assert_eq!(human_number(12_345_678), "12M");
    assert_eq!(human_number(123_456_789), "123M");
    assert_eq!(human_number(1_234_567_890), "1.2B");
}

#[test]
fn human_number_cuts_off_and_never_rounds_up() {
    assert_eq!(human_number(1_099), "1k");
    assert_eq!(human_number(1_100), "1.1k");
    assert_eq!(human_number(1_999), "1.9k");
    assert_eq!(human_number(9_999_999), "9.9M");
    assert_eq!(human_number(999_999_999), "999M");
    assert_eq!(human_number(1_099_999_999), "1B");
    assert_eq!(human_number(u32::MAX), "4.2B");
}

#[test]
fn format_number_pads_to_four_columns() {
    assert_eq!(format_number(0), "   0");
    assert_eq!(format_number(42), "  42");
    assert_eq!(format_number(999), " 999");
    assert_eq!(format_number(1_000), "  1k");
    assert_eq!(format_number(9_999), "9.9k");
    assert_eq!(format_number(123_456), "123k");
    assert_eq!(format_number(1_234_567_890), "1.2B");
}

#[test]
fn pad_left_fills_up_to_the_width() {
    assert_eq!(pad_left("ab", 4, " "), "  ab");
    assert_eq!(pad_left("ab", 4, "xy"), "xyxyab");
    assert_eq!(pad_left("abcd", 4, " "), "abcd");
    assert_eq!(pad_left("abcde", 4, " "), "abcde");
    assert_eq!(pad_left("", 2, "0"), "00");
    assert_eq!(pad_left("\u{e9}", 2, "-"), "-\u{e9}");
}

#[test]
fn decimal_chars_writes_every_digit() {
    let text: String = decimal_chars(0).into_iter().collect();
    assert_eq!(text, "0");
    let text: String = decimal_chars(1234567890).into_iter().collect();
    assert_eq!(text, "1234567890");
    let text: String = decimal_chars(u128::MAX).into_iter().collect();
    assert_eq!(text, u128::MAX.to_string());
}

#[test]
fn format_number_is_always_four_characters_wide() {
    let mut number: u32 = 0;
    loop {
        assert_eq!(format_number(number).chars().count(), 4);
        assert!(human_number(number).chars().count() <= 4);
        if number > u32::MAX / 3 {
            break;
        }
        number = number * 3 + 1;
    }
    for number in [999, 1_000, 9_999, 10_000, 999_999, 1_000_000, 999_999_999, 1_000_000_000, u32::MAX] {
        assert_eq!(format_number(number).chars().count(), 4);
    }
}
