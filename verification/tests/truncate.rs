use mailbox::truncate::{truncate_string, Paint, TruncatedLine};

#[test]
fn truncate_test_zero_length() {
    let mut line = TruncatedLine::new(0);
    line.append("hello", None);
    assert_eq!(line.to_string(), "");
}

#[test]
fn truncate_test_truncate() {
    let mut line = TruncatedLine::new(4);
    line.append("hello", None);
    assert_eq!(line.to_string(), "hel…");
}

#[test]
fn truncate_test_truncate_double_width() {
    let mut line = TruncatedLine::new(4);
    line.append("⭐⭐⭐", None);
    assert_eq!(line.to_string(), "⭐…");
}

#[test]
fn truncate_test_no_truncate() {
    let mut line = TruncatedLine::new(20);
    line.append("hello", None);
    assert_eq!(line.to_string(), "hello");
}

#[test]
fn truncate_test_multiple_append() {
    let mut line = TruncatedLine::new(9);
    line.append("hello ", None);
    line.append("world", None);
    assert_eq!(line.to_string(), "hello wo…");
}

#[test]
fn test_multiple_append_trailing_empty() {
    let mut line = TruncatedLine::new(11);
    line.append("hello ", None);
    line.append("world", None);
    line.append("", None);
    assert_eq!(line.to_string(), "hello world");
}

#[test]
fn test_multiple_append_first_fills() {
    let mut line = TruncatedLine::new(6);
    line.append("hello ", None);
    line.append("world", None);
    assert_eq!(line.to_string(), "hello…");
}

#[test]
fn test_multiple_append_first_fills_double_width() {
    let mut line = TruncatedLine::new(6);
    line.append("⭐⭐⭐", None);
    line.append("world", None);
    assert_eq!(line.to_string(), "⭐⭐…");
}

#[test]
fn truncate_test_colored() {
    // Use colors, even where the output is no terminal
    colored::control::set_override(true);

    let mut line = TruncatedLine::new(11);
    line.append("hello ", None);
    line.append("world", Some(Paint::Red));
    assert_eq!(line.to_string(), "hello \u{1b}[31mworld\u{1b}[0m");

    colored::control::unset_override();
}

#[test]
fn test_colored_empty_string() {
    let mut line = TruncatedLine::new(5);
    line.append("hello ", None);
    line.append("world", Some(Paint::Red));
    assert_eq!(line.to_string(), "hell…");
}

#[test]
fn truncate_test_truncate_string() {
    let message = "Hello, world!";
    assert_eq!(truncate_string(message, 0), (String::new(), 0));
    assert_eq!(truncate_string(message, 6), (String::from("Hello…"), 6));
    assert_eq!(
        truncate_string(message, 13),
        (String::from("Hello, world!"), 13)
    );
    assert_eq!(
        truncate_string(message, 20),
        (String::from("Hello, world!"), 13)
    );
}

#[test]
fn truncate_test_truncate_string_unicode() {
    let message = "⭐a⭐b⭐c⭐";
    assert_eq!(truncate_string(message, 0), (String::new(), 0));
    assert_eq!(truncate_string(message, 5), (String::from("⭐a…"), 4));
    assert_eq!(truncate_string(message, 6), (String::from("⭐a⭐…"), 6));
    assert_eq!(
        truncate_string(message, 11),
        (String::from("⭐a⭐b⭐c⭐"), 11)
    );
    assert_eq!(
        truncate_string(message, 20),
        (String::from("⭐a⭐b⭐c⭐"), 11)
    );
}

#[test]
fn truncate_test_empty_string() {
    assert_eq!(truncate_string("", 0), (String::new(), 0));
    assert_eq!(truncate_string("", 3), (String::new(), 0));
}

#[test]
fn truncate_test_one_column() {
    assert_eq!(truncate_string("ab", 1), (String::from("…"), 1));
    assert_eq!(truncate_string("a", 1), (String::from("a"), 1));
}

#[test]
fn truncate_test_text_width_counts_wide_characters_twice() {
    assert_eq!(mailbox::truncate::text_width("⭐a"), 3);
}
