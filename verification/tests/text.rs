use meetily::clock::Moment;
use meetily::text::{
    chars_of, contains, control, find_from, join_strings, push_decimal, same, trim,
    white_space,
};

#[test]
fn character_classes_are_those_of_unicode() {
    for n in 0..=0x10ffffu32 {
        if let Some(c) = char::from_u32(n) {
            assert_eq!(white_space(c), c.is_whitespace(), "{:x}", n);
            assert_eq!(control(c), c.is_control(), "{:x}", n);
        }
    }
}

#[test]
fn trimming_is_that_of_strings() {
    for s in ["", " ", "a", " a b\t\n", "\u{a0}é\u{3000}", "\u{200b}x"] {
        assert_eq!(trim(s), s.trim());
    }
}

#[test]
fn numbers_print_in_decimal() {
    for n in [0, 9, 10, 99, 100, 12345, u64::MAX] {
        let mut s = String::from("n=");
        push_decimal(&mut s, n);
        assert_eq!(s, format!("n={}", n));
    }
}

#[test]
fn pieces_are_found_and_joined() {
    assert!(contains("olá mundo", "á m"));
    assert!(contains("abc", ""));
    assert!(!contains("ab", "abc"));
    let s = chars_of("abab");
    assert_eq!(find_from(&s, &chars_of("ab"), 1), Some(2));
    assert_eq!(find_from(&s, &chars_of("ab"), 3), None);
    assert!(same("é", "é") && !same("e", "é") && !same("ab", "a"));
    let parts = vec!["a".to_string(), String::new(), "c".to_string()];
    assert_eq!(join_strings(&parts, ", "), "a, , c");
    assert_eq!(join_strings(&[], ", "), "");
}

#[test]
fn moments_have_a_range() {
    assert!(Moment { secs: 0, nanos: 999_999_999 }.is_valid());
    assert!(!Moment { secs: 0, nanos: 1_000_000_000 }.is_valid());
    assert!(Moment { secs: 8_000_000_000_000, nanos: 0 }.is_valid());
    assert!(!Moment { secs: -8_000_000_000_001, nanos: 0 }.is_valid());
}
