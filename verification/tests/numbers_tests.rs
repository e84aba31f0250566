//! Checks of the decimal marker formatting.

use incodoc_to_ansi::numbers::{dec_chars, dec_width, distinct_marker};

#[test]
fn test_dec_chars_digits() {
    assert_eq!(dec_chars(0), vec!['0']);
    assert_eq!(dec_chars(7), vec!['7']);
    assert_eq!(dec_chars(10), vec!['1', '0']);
    assert_eq!(dec_chars(105), vec!['1', '0', '5']);
    assert_eq!(dec_chars(usize::MAX), format!("{}", usize::MAX).chars().collect::<Vec<char>>());
}

#[test]
fn test_dec_width() {
    assert_eq!(dec_width(0), 1);
    assert_eq!(dec_width(9), 1);
    assert_eq!(dec_width(10), 2);
    assert_eq!(dec_width(99), 2);
    assert_eq!(dec_width(100), 3);
}

#[test]
fn test_distinct_marker_right_aligned() {
    assert_eq!(distinct_marker(7, 3), "  7. ");
    assert_eq!(distinct_marker(0, 2), " 0. ");
    assert_eq!(distinct_marker(10, 2), "10. ");
    assert_eq!(distinct_marker(123, 2), "123. ");
}
