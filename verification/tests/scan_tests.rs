use grep_rs::config::Config;
use grep_rs::errors::GrepError;
use grep_rs::scan::{Match, Scanner};

fn config(pattern: &str, case_sensitive: bool) -> Config {
    Config::new(pattern.to_string(), None, case_sensitive, false, "blue").unwrap()
}

fn line_of(hit: &Match) -> String {
    format!("{}{}{}", hit.parts.before, hit.parts.matched, hit.parts.after)
}

fn lines(texts: &[&str]) -> Vec<String> {
    let mut owned = Vec::new();
    for text in texts {
        owned.push(text.to_string());
    }
    owned
}

#[test]
fn test_find_pattern_in_file() {
    let source = lines(&["This line contains the pattern.", "Another line without it."]);
    let hits = config("pattern", false).search_lines(&source);
    assert_eq!(hits.len(), 1);
    assert_eq!(line_of(&hits[0]), "This line contains the pattern.");
    assert_eq!(hits[0].number, 1);
    assert_eq!(hits[0].parts.before, "This line contains the ");
    assert_eq!(hits[0].parts.matched, "pattern");
    assert_eq!(hits[0].parts.after, ".");
}

#[test]
fn test_pattern_not_found() {
    let source = lines(&["This line does not match."]);
    let hits = config("This line does NOT match.", true).search_lines(&source);
    assert!(hits.is_empty());
}

#[test]
fn test_empty_pattern() {
    let made = Config::new(String::new(), None, false, false, "blue");
    let error = made.unwrap_err();
    assert_eq!(error, GrepError::EmptyPattern);
    assert!(error.message().contains("grep-rs: Pattern cannot be empty"));
}

#[test]
fn pattern_of_whitespace_is_refused() {
    for pattern in [" ", "   ", "\t", " \n ", "\u{a0}\u{3000}"] {
        let made = Config::new(pattern.to_string(), None, true, true, "red");
        assert_eq!(made.unwrap_err(), GrepError::EmptyPattern);
    }
}

#[test]
fn pattern_with_text_is_accepted() {
    for pattern in ["a", " a", "a ", " . ", "\u{200b}"] {
        let made = Config::new(pattern.to_string(), None, true, true, "red");
        assert_eq!(made.unwrap().pattern(), pattern);
    }
}

#[test]
fn config_keeps_what_it_was_given() {
    let made = Config::new(
        "Needle".to_string(),
        Some("input.txt".to_string()),
        false,
        true,
        "green",
    )
    .unwrap();
    assert_eq!(made.pattern(), "Needle");
    assert_eq!(made.needle(), "needle");
    assert_eq!(made.path(), Some("input.txt"));
    assert!(!made.case_sensitive());
    assert!(made.show_line_numbers());
    assert_eq!(made.color(), grep_rs::color::HighlightColor::Green);
}

#[test]
fn config_needle_where_case_matters() {
    let made = Config::new("Needle".to_string(), None, true, false, "blue").unwrap();
    assert_eq!(made.needle(), "Needle");
    assert_eq!(made.path(), None);
    assert!(made.case_sensitive());
    assert!(!made.show_line_numbers());
}

#[test]
fn the_same_line_without_case() {
    let source = lines(&["This line does not match."]);
    let hits = config("This line does NOT match.", false).search_lines(&source);
    assert_eq!(hits.len(), 1);
    assert_eq!(hits[0].parts.before, "");
    assert_eq!(hits[0].parts.matched, "This line does not match.");
    assert_eq!(hits[0].parts.after, "");
}

#[test]
fn found_lines_are_the_matching_lines_in_order() {
    let source = lines(&["apple", "banana", "cherry", "date", "an apple a day", ""]);
    let hits = config("a", true).search_lines(&source);
    let found: Vec<String> = hits.iter().map(line_of).collect();
    assert_eq!(found, vec!["apple", "banana", "date", "an apple a day"]);
}

#[test]
fn numbers_are_positions_in_the_source() {
    let source = lines(&["a", "xb", "c", "xd", "e", "f", "gx"]);
    let hits = config("x", true).search_lines(&source);
    let numbers: Vec<u64> = hits.iter().map(|hit| hit.number).collect();
    assert_eq!(numbers, vec![2, 4, 7]);
    for hit in &hits {
        assert_eq!(line_of(hit), source[(hit.number - 1) as usize]);
    }
}

#[test]
fn a_source_without_lines_gives_nothing() {
    let hits = config("x", true).search_lines(&Vec::new());
    assert!(hits.is_empty());
}

#[test]
fn every_line_may_match() {
    let source = lines(&["x", "xx", "xxx"]);
    let hits = config("x", false).search_lines(&source);
    let numbers: Vec<u64> = hits.iter().map(|hit| hit.number).collect();
    assert_eq!(numbers, vec![1, 2, 3]);
}

#[test]
fn examine_gives_the_number_it_was_given() {
    let settings = config("World", false);
    let hit = settings.examine(41, "hello world").unwrap();
    assert_eq!(hit.number, 41);
    assert_eq!(hit.parts.before, "hello ");
    assert_eq!(hit.parts.matched, "world");
    assert_eq!(hit.parts.after, "");
    assert!(settings.examine(42, "hello there").is_none());
}

#[test]
fn examine_where_case_matters() {
    let settings = config("World", true);
    assert!(settings.examine(1, "hello world").is_none());
    let hit = settings.examine(2, "hello World!").unwrap();
    assert_eq!(hit.parts.matched, "World");
    assert_eq!(hit.parts.after, "!");
}

#[test]
fn examine_folded_reads_the_folded_line() {
    let settings = config("cd", true);
    let hit = settings.examine_folded(5, "abcdef", "..cd..").unwrap();
    assert_eq!(hit.number, 5);
    assert_eq!(hit.parts.before, "ab");
    assert_eq!(hit.parts.matched, "cd");
    assert_eq!(hit.parts.after, "ef");
    assert!(settings.examine_folded(6, "abcdef", "......").is_none());
    let hit = settings.examine_folded(7, "abXXef", "cd").unwrap();
    assert_eq!(hit.parts.before, "");
    assert_eq!(hit.parts.matched, "ab");
}

#[test]
fn scanner_numbers_every_line() {
    let mut scanner = Scanner::new(config("x", true));
    assert_eq!(scanner.lines_seen(), 0);
    assert!(scanner.has_room());
    assert!(scanner.feed("a").is_none());
    assert_eq!(scanner.lines_seen(), 1);
    let hit = scanner.feed("xb").unwrap();
    assert_eq!(hit.number, 2);
    assert!(scanner.feed("c").is_none());
    let hit = scanner.feed("dx").unwrap();
    assert_eq!(hit.number, 4);
    assert_eq!(hit.parts.before, "d");
    assert_eq!(scanner.lines_seen(), 4);
    assert_eq!(scanner.config().pattern(), "x");
}

#[test]
fn scanner_and_search_lines_agree() {
    let source = lines(&["Alpha", "beta", "GAMMA", "delta", "alphabet"]);
    let whole = config("alpha", false).search_lines(&source);
    let mut scanner = Scanner::new(config("alpha", false));
    let mut fed = Vec::new();
    for line in &source {
        if let Some(hit) = scanner.feed(line) {
            fed.push(hit);
        }
    }
    assert_eq!(fed.len(), whole.len());
    for (one, other) in fed.iter().zip(whole.iter()) {
        assert_eq!(one.number, other.number);
        assert_eq!(line_of(one), line_of(other));
        assert_eq!(one.parts.matched, other.parts.matched);
    }
    assert_eq!(fed.len(), 2);
}
