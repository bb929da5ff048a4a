use hecto::highlighting::{Color, Type};
use hecto::search::{find_first, find_last};

#[test]
fn find_first_gives_the_least_offset() {
    assert_eq!(find_first(b"abcabc", b"bc"), Some(1));
    assert_eq!(find_first(b"abcabc", b"abc"), Some(0));
    assert_eq!(find_first(b"aaab", b"ab"), Some(2));
    assert_eq!(find_first(b"abc", b"abc"), Some(0));
}

#[test]
fn find_last_gives_the_greatest_offset() {
    assert_eq!(find_last(b"abcabc", b"bc"), Some(4));
    assert_eq!(find_last(b"abcabc", b"abc"), Some(3));
    assert_eq!(find_last(b"aaaa", b"aa"), Some(2));
    assert_eq!(find_last(b"abc", b"abc"), Some(0));
}

#[test]
fn find_bytes_that_are_not_there() {
    assert_eq!(find_first(b"abcabc", b"cb"), None);
    assert_eq!(find_last(b"abcabc", b"cb"), None);
    assert_eq!(find_first(b"ab", b"abc"), None);
    assert_eq!(find_last(b"ab", b"abc"), None);
    assert_eq!(find_first(b"", b"a"), None);
    assert_eq!(find_last(b"", b"a"), None);
}

#[test]
fn find_no_bytes_at_either_end() {
    assert_eq!(find_first(b"abc", b""), Some(0));
    assert_eq!(find_last(b"abc", b""), Some(3));
    assert_eq!(find_first(b"", b""), Some(0));
    assert_eq!(find_last(b"", b""), Some(0));
}

#[test]
fn find_bytes_agrees_with_the_standard_library() {
    let hays = ["", "a", "abcxabc", "aaaa", "abababab", "xyzzy", "mississippi"];
    let needles = ["", "a", "ab", "ba", "zz", "issi", "ssi", "abc", "mississippi!", "p"];
    for hay in hays {
        for needle in needles {
            assert_eq!(find_first(hay.as_bytes(), needle.as_bytes()), hay.find(needle));
            assert_eq!(find_last(hay.as_bytes(), needle.as_bytes()), hay.rfind(needle));
        }
    }
}

#[test]
fn classify_knows_the_ascii_digits() {
    for c in '0'..='9' {
        assert_eq!(Type::classify(c), Type::Number);
    }
    for c in ['a', ' ', '/', ':', '\t', '\u{0663}', '\u{FF11}', '\u{1F468}'] {
        assert_eq!(Type::classify(c), Type::Plain);
    }
}

#[test]
fn each_class_has_its_colour() {
    assert_eq!(Type::Number.to_color(), Color { red: 220, green: 163, blue: 163 });
    assert_eq!(Type::Plain.to_color(), Color { red: 255, green: 255, blue: 255 });
}
