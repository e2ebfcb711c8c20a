use grep_rs::boundary::floor_char_boundary;
use grep_rs::matching::{contains_text, is_match};
use grep_rs::search::{find, matches_at};
use grep_rs::text::{blank, whitespace};

#[test]
fn find_gives_the_first_offset() {
    assert_eq!(find(b"hello world", b"o w"), Some(4));
    assert_eq!(find(b"abcabc", b"ca"), Some(2));
    assert_eq!(find(b"abcabc", b"abc"), Some(0));
    assert_eq!(find(b"abcabc", b"bc"), Some(1));
}

#[test]
fn find_overlapping_occurrences() {
    assert_eq!(find(b"aaa", b"aa"), Some(0));
    assert_eq!(find(b"aab", b"ab"), Some(1));
}

#[test]
fn find_at_the_very_end() {
    assert_eq!(find(b"This line contains the pattern", b"pattern"), Some(23));
    assert_eq!(find(b"xy", b"y"), Some(1));
}

#[test]
fn find_the_empty_needle() {
    assert_eq!(find(b"abc", b""), Some(0));
    assert_eq!(find(b"", b""), Some(0));
}

#[test]
fn find_nothing() {
    assert_eq!(find(b"", b"a"), None);
    assert_eq!(find(b"ab", b"abc"), None);
    assert_eq!(find(b"abcabd", b"abe"), None);
}

#[test]
fn find_agrees_with_the_standard_search() {
    let hay = "naïve café, naïve CAFÉ — déjà vu";
    let needles = ["café", "CAFÉ", "é", "—", "vu", "naïve C", "x", "", "déjà vu!"];
    for needle in needles {
        assert_eq!(find(hay.as_bytes(), needle.as_bytes()), hay.find(needle));
        assert_eq!(contains_text(hay, needle), hay.contains(needle));
    }
}

#[test]
fn matches_at_each_offset() {
    assert!(matches_at(b"abcabc", b"abc", 0));
    assert!(!matches_at(b"abcabc", b"abc", 1));
    assert!(matches_at(b"abcabc", b"abc", 3));
    assert!(matches_at(b"abc", b"", 3));
}

#[test]
fn matches_at_beyond_the_end() {
    assert!(!matches_at(b"abc", b"", 4));
    assert!(!matches_at(b"abc", b"c", 3));
    assert!(!matches_at(b"abc", b"bcd", 1));
    assert!(!matches_at(b"abc", b"abcd", 0));
    assert!(!matches_at(b"", b"a", usize::MAX));
}

#[test]
fn contains_text_on_plain_values() {
    assert!(contains_text("This line contains the pattern.", "pattern"));
    assert!(!contains_text("Another line without it.", "pattern"));
    assert!(contains_text("anything", ""));
    assert!(!contains_text("", "a"));
}

#[test]
fn case_insensitive_lines_match_by_their_lower_case() {
    assert!(is_match("Hello WORLD", "world", false));
    assert!(is_match("hello world", "WORLD", false));
    assert!(is_match("ÄPFEL und Birnen", "äpfel", false));
    assert!(!is_match("Hello WORLD", "word", false));
}

#[test]
fn case_sensitive_lines_match_as_they_are() {
    assert!(is_match("Hello WORLD", "WORLD", true));
    assert!(!is_match("Hello WORLD", "world", true));
    assert!(!is_match("hello world", "WORLD", true));
}

#[test]
fn folding_is_more_than_a_copy() {
    assert!(!contains_text("Hello WORLD", "world"));
    assert!(is_match("Hello WORLD", "world", false));
}

#[test]
fn whitespace_is_the_unicode_property() {
    let mut code: u32 = 0;
    while code <= 0x10ffff {
        if let Some(c) = char::from_u32(code) {
            assert_eq!(whitespace(c), c.is_whitespace());
        }
        code += 1;
    }
}

#[test]
fn blank_texts() {
    assert!(blank(""));
    assert!(blank(" "));
    assert!(blank("  \t\r\n"));
    assert!(blank("\u{3000}\u{a0}\u{2003}"));
    assert!(!blank(" a "));
    assert!(!blank("\u{200b}"));
    assert!(!blank("pattern"));
}

#[test]
fn blank_agrees_with_trimming() {
    let texts = ["", "   ", "x", " x", "x ", "\t\n", "\u{85}", "\u{feff}", "a b"];
    for text in texts {
        assert_eq!(blank(text), text.trim().is_empty());
    }
}

#[test]
fn floor_char_boundary_moves_down() {
    assert_eq!(floor_char_boundary("aé", 0), 0);
    assert_eq!(floor_char_boundary("aé", 1), 1);
    assert_eq!(floor_char_boundary("aé", 2), 1);
    assert_eq!(floor_char_boundary("aé", 3), 3);
    assert_eq!(floor_char_boundary("aé", 10), 3);
    assert_eq!(floor_char_boundary("", 5), 0);
    assert_eq!(floor_char_boundary("a😀b", 4), 1);
    assert_eq!(floor_char_boundary("a😀b", 5), 5);
}
