use debilek_bot::text::{chars_of, decimal_chars, text_contains, text_eq, text_starts_with};

#[test]
fn prefix_tests() {
    assert!(text_starts_with("en-GB", "en"));
    assert!(text_starts_with("en-GB", ""));
    assert!(text_starts_with("en", "en"));
    assert!(!text_starts_with("en", "en-"));
    assert!(!text_starts_with("cs-CZ", "en"));
}

#[test]
fn substring_tests() {
    assert!(text_contains("hello", "ell"));
    assert!(text_contains("hello", ""));
    assert!(text_contains("hello", "hello"));
    assert!(text_contains("hello", "o"));
    assert!(!text_contains("hello", "hellos"));
    assert!(!text_contains("hello", "lo!"));
    assert!(text_contains("žluťoučký kůň", "kůň"));
}

#[test]
fn equality_and_chars() {
    assert!(text_eq("abc", "abc"));
    assert!(!text_eq("abc", "abd"));
    assert!(!text_eq("abc", "ab"));
    assert_eq!(chars_of("kůň"), vec!['k', 'ů', 'ň']);
}

#[test]
fn decimal_rendering() {
    let s: String = decimal_chars(0).into_iter().collect();
    assert_eq!(s, "0");
    let s: String = decimal_chars(9).into_iter().collect();
    assert_eq!(s, "9");
    let s: String = decimal_chars(10).into_iter().collect();
    assert_eq!(s, "10");
    let s: String = decimal_chars(769146546905284608).into_iter().collect();
    assert_eq!(s, "769146546905284608");
    let s: String = decimal_chars(u64::MAX).into_iter().collect();
    assert_eq!(s, u64::MAX.to_string());
}
