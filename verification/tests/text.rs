use ping_supervisor::text::{chars_of, contains, decimal_string, digit_text, matches_at};

fn cs(s: &str) -> Vec<char> {
    s.chars().collect()
}

#[test]
fn chars_in_order() {
    assert_eq!(chars_of("a\u{00e9}z"), vec!['a', '\u{00e9}', 'z']);
    assert_eq!(chars_of(""), Vec::<char>::new());
}

#[test]
fn substring_found_and_not_found() {
    assert!(contains(&cs("destination host unreachable"), &cs("host")));
    assert!(contains(&cs("abc"), &cs("abc")));
    assert!(contains(&cs("abc"), &cs("c")));
    assert!(contains(&cs("aab"), &cs("ab")));
    assert!(!contains(&cs("abc"), &cs("abcd")));
    assert!(!contains(&cs("abc"), &cs("ac")));
    assert!(!contains(&cs(""), &cs("a")));
}

#[test]
fn empty_needle_is_everywhere() {
    assert!(contains(&cs("abc"), &cs("")));
    assert!(contains(&cs(""), &cs("")));
}

#[test]
fn match_at_a_position() {
    assert!(matches_at(&cs("time=5"), &cs("me="), 2));
    assert!(!matches_at(&cs("time=5"), &cs("me="), 1));
    assert!(matches_at(&cs("time=5"), &cs(""), 6));
}

#[test]
fn decimal_numerals() {
    assert_eq!(decimal_string(0), "0");
    assert_eq!(decimal_string(4), "4");
    assert_eq!(decimal_string(10), "10");
    assert_eq!(decimal_string(907), "907");
    assert_eq!(decimal_string(u32::MAX), "4294967295");
}

#[test]
fn digit_texts() {
    assert_eq!(digit_text(0), "0");
    assert_eq!(digit_text(5), "5");
    assert_eq!(digit_text(9), "9");
}
