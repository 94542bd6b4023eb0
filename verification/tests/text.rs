use vehicle_filter::order::text_le;
use vehicle_filter::text::append_decimal;
use vehicle_filter::text::chars_of;
use vehicle_filter::text::to_decimal;

#[test]
fn chars_of_a_plate() {
    assert_eq!(chars_of("A-0é"), vec!['A', '-', '0', 'é']);
    assert_eq!(chars_of(""), Vec::<char>::new());
}

#[test]
fn decimal_of_zero() {
    assert_eq!(to_decimal(0), "0");
}

#[test]
fn decimal_of_small_and_large_numbers() {
    assert_eq!(to_decimal(7), "7");
    assert_eq!(to_decimal(10), "10");
    assert_eq!(to_decimal(2020), "2020");
    assert_eq!(to_decimal(65535), "65535");
    assert_eq!(to_decimal(u128::MAX), "340282366920938463463374607431768211455");
}

#[test]
fn decimal_is_appended() {
    let mut line = String::from("year ");
    append_decimal(&mut line, 1999);
    assert_eq!(line, "year 1999");
}

#[test]
fn order_of_two_plates() {
    assert!(text_le("A0-A0-X", "B0-A0-X"));
    assert!(!text_le("B0-A0-X", "A0-A0-X"));
}

#[test]
fn equal_texts_are_in_order() {
    assert!(text_le("AT-001-B", "AT-001-B"));
    assert!(text_le("", ""));
}

#[test]
fn prefix_comes_first() {
    assert!(text_le("AB", "ABC"));
    assert!(!text_le("ABC", "AB"));
    assert!(text_le("", "A"));
    assert!(!text_le("A", ""));
}

#[test]
fn first_difference_decides() {
    assert!(text_le("AB-9", "AC-0"));
    assert!(!text_le("AC-0", "AB-9"));
    assert!(text_le("A-10", "A-9"));
}

#[test]
fn upper_case_comes_before_lower_case() {
    assert!(text_le("Z", "a"));
    assert!(!text_le("a", "Z"));
}

#[test]
fn order_agrees_with_the_order_of_strings() {
    let samples = ["", "A", "A-0", "A0-A0-X", "B0-A0-X", "a", "é", "z", "Ä-1", "日本", "\u{10FFFF}", "A\u{7f}", "A\u{80}"];
    for a in samples {
        for b in samples {
            assert_eq!(text_le(a, b), a <= b);
        }
    }
}
