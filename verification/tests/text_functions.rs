use automode::paths::{file_name, join_path, PathRules};
use automode::text::{
    decimal_string, decimal_string_signed, ends_with, is_whitespace, join, lines, parse_digits,
    same_text_ignoring_case, starts_with, strip_prefix, trim,
};
use std::path::Path;

#[test]
fn white_space_is_what_the_standard_library_says() {
    for c in '\0'..=char::MAX {
        assert_eq!(is_whitespace(c), c.is_whitespace(), "{c:?}");
    }
}

#[test]
fn texts_are_cut_as_the_standard_library_does() {
    for text in ["", " ", "a", "\u{a0}a \t", "a\r\nb\n\nc\r", "\n", "\r\n", "x\n", " \u{2003}y z\u{85}"] {
        assert_eq!(trim(text), text.trim());
        assert_eq!(lines(text), text.lines().map(str::to_string).collect::<Vec<_>>());
        for part in ["", "a", "x\n", " ", "c\r"] {
            assert_eq!(starts_with(text, part), text.starts_with(part));
            assert_eq!(ends_with(text, part), text.ends_with(part));
            assert_eq!(strip_prefix(text, part), text.strip_prefix(part));
        }
    }
    assert_eq!(join(&["a".to_string(), "b".to_string(), String::new()], ", "), "a, b, ");
    assert!(same_text_ignoring_case("ReSuMe", "resume"));
    assert!(!same_text_ignoring_case("r\u{e9}sum\u{e9}", "r\u{c9}sum\u{c9}"));
}

#[test]
fn numbers_are_written_as_the_standard_library_does() {
    for n in [0, 9, 10, 4_096, u64::MAX] {
        assert_eq!(decimal_string(n), n.to_string());
    }
    for n in [i64::MIN, -10, -1, 0, 7, i64::MAX] {
        assert_eq!(decimal_string_signed(n), n.to_string());
    }
    let digits: Vec<char> = "18446744073709551615".chars().collect();
    assert_eq!(parse_digits(&digits), Some(u64::MAX));
    let digits: Vec<char> = "18446744073709551616".chars().collect();
    assert_eq!(parse_digits(&digits), None);
}

#[test]
fn paths_are_joined_as_the_standard_library_does() {
    for base in ["/", "/a", "/a/", "", "a/b"] {
        for path in ["b", "/c", "", "d/e/", "../x"] {
            assert_eq!(
                join_path(PathRules::current(), base, path),
                Path::new(base).join(path).display().to_string()
            );
        }
    }
    for path in ["", "/", "a", "/a/b", "/a/b/", "/a/b/.", "/a/..", "a//", "./.", "/a/./b//"] {
        assert_eq!(
            file_name(PathRules::current(), path),
            Path::new(path).file_name().map(|name| name.to_str().unwrap().to_string()),
            "{path}"
        );
    }
}
