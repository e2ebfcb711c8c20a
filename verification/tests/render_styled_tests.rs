use grep_rs::config::Config;
use grep_rs::errors::GrepError;
use grep_rs::render::prefix_text;
use grep_rs::scan::Scanner;

fn config(pattern: &str, show_line_numbers: bool, color: &str) -> Config {
    Config::new(pattern.to_string(), None, false, show_line_numbers, color).unwrap()
}

#[test]
fn prefix_in_bold() {
    colored::control::set_override(true);
    assert_eq!(prefix_text(12, true), "\u{1b}[1m12:  \u{1b}[0m");
    assert_eq!(prefix_text(12, false), "");
}

#[test]
fn render_marks_the_match_in_bold_and_colour() {
    colored::control::set_override(true);
    let settings = config("pattern", false, "blue");
    let hit = settings.examine(1, "This line contains the pattern.").unwrap();
    assert_eq!(
        settings.render(&hit),
        "This line contains the \u{1b}[1;34mpattern\u{1b}[0m.\n"
    );
}

#[test]
fn render_with_numbers() {
    colored::control::set_override(true);
    let settings = config("pattern", true, "red");
    let hit = settings.examine(3, "This line contains the pattern.").unwrap();
    assert_eq!(
        settings.render(&hit),
        "\u{1b}[1m3:  \u{1b}[0mThis line contains the \u{1b}[1;31mpattern\u{1b}[0m.\n"
    );
}

#[test]
fn render_in_each_fixed_colour() {
    colored::control::set_override(true);
    let codes = [
        ("black", "30"),
        ("red", "31"),
        ("green", "32"),
        ("yellow", "33"),
        ("blue", "34"),
        ("magenta", "35"),
        ("cyan", "36"),
        ("white", "37"),
        ("bright black", "90"),
        ("bright red", "91"),
        ("bright green", "92"),
        ("bright yellow", "93"),
        ("bright blue", "94"),
        ("bright magenta", "95"),
        ("bright cyan", "96"),
        ("bright white", "97"),
    ];
    for (name, code) in codes {
        let settings = config("b", false, name);
        let hit = settings.examine(1, "abc").unwrap();
        assert_eq!(settings.render(&hit), format!("a\u{1b}[1;{code}mb\u{1b}[0mc\n"));
    }
}

#[test]
fn render_with_a_name_that_is_no_colour() {
    colored::control::set_override(true);
    let settings = config("b", false, "off");
    let hit = settings.examine(1, "abc").unwrap();
    assert_eq!(settings.render(&hit), "a\u{1b}[1;34mb\u{1b}[0mc\n");
}

#[test]
fn render_keeps_the_line_between_the_control_sequences() {
    colored::control::set_override(true);
    let settings = config("needle", true, "green");
    let line = "a needle in a haystack";
    let hit = settings.examine(5, line).unwrap();
    let out = settings.render(&hit);
    let bare = out
        .replace("\u{1b}[1;32m", "")
        .replace("\u{1b}[1m", "")
        .replace("\u{1b}[0m", "");
    assert_eq!(bare, format!("5:  {line}\n"));
}

#[test]
fn message_shows_the_path_in_bold() {
    colored::control::set_override(true);
    assert_eq!(
        GrepError::NotAFile("missing.txt".to_string()).message(),
        "grep-rs: \u{1b}[1mmissing.txt\u{1b}[0m is not a file"
    );
    assert_eq!(GrepError::EmptyPattern.message(), "grep-rs: Pattern cannot be empty");
}

#[test]
fn diagnostic_is_the_message_in_red() {
    colored::control::set_override(true);
    assert_eq!(
        GrepError::EmptyPattern.diagnostic(),
        "\u{1b}[31mgrep-rs: Pattern cannot be empty\u{1b}[0m"
    );
    assert_eq!(
        GrepError::Io("read failed".to_string()).diagnostic(),
        "\u{1b}[31mgrep-rs: read failed\u{1b}[0m"
    );
}

#[test]
fn emit_marks_what_it_writes() {
    colored::control::set_override(true);
    let mut scanner = Scanner::new(config("an", true, "cyan"));
    assert_eq!(scanner.emit("apple"), None);
    assert_eq!(
        scanner.emit("Banana"),
        Some("\u{1b}[1m2:  \u{1b}[0mB\u{1b}[1;36man\u{1b}[0mana\n".to_string())
    );
}
